//! Markdown tables, math blocks and the assembly of a message's rows from
//! its blocks.

use crate::layout::{space_chars, spaces, text_columns, text_lines, text_width, wrap_line, wrapped, lines_of};
use crate::markdown::{BlockView, ListMarker, MdBlock, MdSpan, SpanView};
use crate::mdrender::{
    append_lines, blank_line, blank_row, clipped, code_block_rows, code_highlight, list_prefix,
    list_prefix_of, push_line, render_code_block, soft_chunks, styled_line, styled_row, sub0,
    truncate_str, word_chunks, wrap_spans_with_custom_prefix, wrapped_spans, LineView, MdLine,
    MdLook, MdRun, Prefix,
};
use crate::text::{chars_of, extend_chars, string_of, trim, trim_chars, vv, words};
use vstd::prelude::*;

verus! {

// ---------------------------------------------------------------------------
// Cell text.
// ---------------------------------------------------------------------------

/// The text of a cell: its spans' texts, one after another.
pub open spec fn joined_text(spans: Seq<SpanView>) -> Seq<char>
    decreases spans.len(),
{
    if spans.len() == 0 {
        seq![]
    } else {
        joined_text(spans.drop_last()) + spans.last().text
    }
}

/// A row's cell texts, padded with empty cells to `n` columns.
pub open spec fn padded_cells(row: Seq<Seq<SpanView>>, n: nat) -> Seq<Seq<char>> {
    Seq::new(n, |i: int| if i < row.len() { joined_text(row[i]) } else { seq![] })
}

fn cell_text(spans: &Vec<MdSpan>) -> (r: Vec<char>)
    ensures
        r@ == joined_text(spans.deep_view()),
{
    let ghost sv = spans.deep_view();
    let mut r: Vec<char> = Vec::new();
    let mut i: usize = 0;
    while i < spans.len()
        invariant
            i <= spans.len(),
            sv == spans.deep_view(),
            r@ == joined_text(sv.take(i as int)),
        decreases spans.len() - i,
    {
        assert(sv.take(i + 1).drop_last() =~= sv.take(i as int));
        crate::text::extend_str(&mut r, spans[i].text.as_str());
        i += 1;
    }
    assert(sv.take(i as int) =~= sv);
    r
}

pub fn pad_cell_texts(row: &Vec<Vec<MdSpan>>, col_count: usize) -> (r: Vec<Vec<char>>)
    ensures
        vv(r@) == padded_cells(row.deep_view(), col_count as nat),
{
    let mut r: Vec<Vec<char>> = Vec::new();
    let mut i: usize = 0;
    while i < col_count
        invariant
            i <= col_count,
            vv(r@) == padded_cells(row.deep_view(), col_count as nat).take(i as int),
        decreases col_count - i,
    {
        let ghost r0 = vv(r@);
        if i < row.len() {
            let c = cell_text(&row[i]);
            assert(c@ == joined_text(row.deep_view()[i as int]));
            r.push(c);
            assert(vv(r@) =~= r0.push(joined_text(row.deep_view()[i as int])));
        } else {
            r.push(Vec::new());
            assert(vv(r@) =~= r0.push(Seq::<char>::empty()));
        }
        i += 1;
        assert(vv(r@) =~= padded_cells(row.deep_view(), col_count as nat).take(i as int));
    }
    assert(padded_cells(row.deep_view(), col_count as nat).take(i as int) =~= padded_cells(
        row.deep_view(),
        col_count as nat,
    ));
    r
}

// ---------------------------------------------------------------------------
// Wrapping a cell.
// ---------------------------------------------------------------------------

pub open spec fn cell_lines_fold(lines: Seq<Seq<char>>, width: nat, hard: bool) -> Seq<Seq<char>>
    decreases lines.len(),
{
    if lines.len() == 0 {
        seq![]
    } else {
        let r = cell_lines_fold(lines.drop_last(), width, hard);
        let line = lines.last();
        if line.len() == 0 {
            if r.len() == 0 {
                seq![seq![]]
            } else {
                r
            }
        } else if hard {
            r + wrapped(line, width)
        } else {
            let r2 = r + soft_chunks(line, width);
            if r2.len() == 0 {
                seq![seq![]]
            } else {
                r2
            }
        }
    }
}

/// A cell's text in rows of at most `width` columns: word by word, or
/// character by character when words must break; never no row.
pub open spec fn cell_wrapped(text: Seq<char>, width: nat, hard: bool) -> Seq<Seq<char>> {
    if width == 0 {
        seq![text]
    } else {
        let r = cell_lines_fold(text_lines(text), width, hard);
        if r.len() == 0 {
            seq![seq![]]
        } else {
            r
        }
    }
}

fn append_chunks(r: &mut Vec<Vec<char>>, more: Vec<Vec<char>>)
    ensures
        vv(final(r)@) == vv(old(r)@) + vv(more@),
{
    let mut more = more;
    let ghost m = vv(more@);
    r.append(&mut more);
    assert(vv(r@) =~= vv(old(r)@) + m);
}

pub fn wrap_cell_text(text: &Vec<char>, width: usize, hard: bool) -> (r: Vec<Vec<char>>)
    ensures
        vv(r@) == cell_wrapped(text@, width as nat, hard),
        r@.len() >= 1,
{
    if width == 0 {
        let mut r: Vec<Vec<char>> = Vec::new();
        r.push(text.clone());
        assert(vv(r@) =~= seq![text@]);
        return r;
    }
    let ls = lines_of(string_of(text).as_str());
    let ghost lv = vv(ls@);
    let mut r: Vec<Vec<char>> = Vec::new();
    let mut i: usize = 0;
    assert(vv(r@) =~= cell_lines_fold(lv.take(0), width as nat, hard));
    while i < ls.len()
        invariant
            i <= ls.len(),
            lv == vv(ls@),
            lv == text_lines(text@),
            width > 0,
            vv(r@) == cell_lines_fold(lv.take(i as int), width as nat, hard),
        decreases ls.len() - i,
    {
        assert(lv.take(i + 1).drop_last() =~= lv.take(i as int));
        let line = &ls[i];
        if line.len() == 0 {
            if r.len() == 0 {
                r.push(Vec::new());
                assert(vv(r@) =~= seq![Seq::<char>::empty()]);
            }
        } else if hard {
            let chunks = wrap_line(string_of(line).as_str(), width);
            append_chunks(&mut r, chunks);
        } else {
            let chunks = word_chunks(string_of(line).as_str(), width);
            append_chunks(&mut r, chunks);
            if r.len() == 0 {
                r.push(Vec::new());
                assert(vv(r@) =~= seq![Seq::<char>::empty()]);
            }
        }
        i += 1;
    }
    assert(lv.take(i as int) =~= lv);
    if r.len() == 0 {
        r.push(Vec::new());
        assert(vv(r@) =~= seq![Seq::<char>::empty()]);
    }
    r
}

// ---------------------------------------------------------------------------
// Rows of a table.
// ---------------------------------------------------------------------------

/// A column's width, three columns where none was computed.
pub open spec fn col_width_of(widths: Seq<usize>, ci: int) -> nat {
    if 0 <= ci < widths.len() {
        widths[ci] as nat
    } else {
        3
    }
}

/// The most rows a cell of a table row wraps into, from `acc` up.
pub open spec fn row_lines(row: Seq<Seq<char>>, widths: Seq<usize>, hard: bool) -> nat
    decreases row.len(),
{
    if row.len() == 0 {
        0
    } else {
        let k = row.len() - 1;
        let prev = row_lines(row.drop_last(), widths, hard);
        let n = cell_wrapped(row.last(), col_width_of(widths, k), hard).len();
        if n > prev {
            n
        } else {
            prev
        }
    }
}

/// The most rows any cell of the header or the body wraps into; one at least.
pub open spec fn max_row_lines(rows: Seq<Seq<Seq<char>>>, widths: Seq<usize>, hard: bool) -> nat
    decreases rows.len(),
{
    if rows.len() == 0 {
        1
    } else {
        let prev = max_row_lines(rows.drop_last(), widths, hard);
        let n = row_lines(rows.last(), widths, hard);
        if n > prev {
            n
        } else {
            prev
        }
    }
}

fn width_at(widths: &Vec<usize>, ci: usize) -> (r: usize)
    ensures
        r == col_width_of(widths@, ci as int),
{
    if ci < widths.len() {
        widths[ci]
    } else {
        3
    }
}

fn row_line_count(row: &Vec<Vec<char>>, widths: &Vec<usize>, hard: bool) -> (r: usize)
    ensures
        r == row_lines(vv(row@), widths@, hard),
{
    let ghost rv = vv(row@);
    let mut m: usize = 0;
    let mut ci: usize = 0;
    while ci < row.len()
        invariant
            ci <= row.len(),
            rv == vv(row@),
            m == row_lines(rv.take(ci as int), widths@, hard),
        decreases row.len() - ci,
    {
        assert(rv.take(ci + 1).drop_last() =~= rv.take(ci as int));
        let n = wrap_cell_text(&row[ci], width_at(widths, ci), hard).len();
        if n > m {
            m = n;
        }
        ci += 1;
    }
    assert(rv.take(ci as int) =~= rv);
    m
}

pub open spec fn table_rows(headers: Seq<Seq<char>>, rows: Seq<Seq<Seq<char>>>) -> Seq<Seq<Seq<char>>> {
    seq![headers] + rows
}

pub open spec fn vvv(rows: Seq<Vec<Vec<char>>>) -> Seq<Seq<Seq<char>>> {
    Seq::new(rows.len(), |i: int| vv(rows[i]@))
}

pub fn calc_max_row_lines(
    headers: &Vec<Vec<char>>,
    rows: &Vec<Vec<Vec<char>>>,
    col_widths: &Vec<usize>,
    hard_wrap: bool,
) -> (r: usize)
    ensures
        r == max_row_lines(table_rows(vv(headers@), vvv(rows@)), col_widths@, hard_wrap),
{
    let ghost all = table_rows(vv(headers@), vvv(rows@));
    let mut m: usize = 1;
    let n = row_line_count(headers, col_widths, hard_wrap);
    assert(all.take(1).drop_last() =~= Seq::<Seq<Seq<char>>>::empty());
    assert(all[0] == vv(headers@));
    assert(all.take(1).last() == vv(headers@));
    if n > m {
        m = n;
    }
    assert(max_row_lines(all.take(1).drop_last(), col_widths@, hard_wrap) == 1);
    assert(m == max_row_lines(all.take(1), col_widths@, hard_wrap));
    let mut i: usize = 0;
    while i < rows.len()
        invariant
            i <= rows.len(),
            all == table_rows(vv(headers@), vvv(rows@)),
            m == max_row_lines(all.take(i + 1), col_widths@, hard_wrap),
        decreases rows.len() - i,
    {
        assert(all.take(i + 2).drop_last() =~= all.take(i + 1));
        assert(all[i + 1] == vv(rows@[i as int]@));
        let n = row_line_count(&rows[i], col_widths, hard_wrap);
        if n > m {
            m = n;
        }
        i += 1;
    }
    assert(all.take(i + 1) =~= all);
    m
}

pub open spec fn repeat_char(c: char, n: nat) -> Seq<char> {
    Seq::new(n, |i: int| c)
}

fn repeated(c: char, n: usize) -> (r: Vec<char>)
    ensures
        r@ == repeat_char(c, n as nat),
{
    let mut r: Vec<char> = Vec::new();
    let mut i: usize = 0;
    while i < n
        invariant
            i <= n,
            r@ == repeat_char(c, i as nat),
        decreases n - i,
    {
        r.push(c);
        i += 1;
        assert(r@ =~= repeat_char(c, i as nat));
    }
    r
}

pub open spec fn border_runs(widths: Seq<usize>, mid: char, look: MdLook) -> Seq<(Seq<char>, MdLook)>
    decreases widths.len(),
{
    if widths.len() == 0 {
        seq![]
    } else {
        border_runs(widths.drop_last(), mid, look) + (if widths.len() > 1 {
            seq![(seq![mid], look)]
        } else {
            seq![]
        }) + seq![(repeat_char('─', (widths.last() + 2) as nat), look)]
    }
}

/// A horizontal border: its corners, a junction between columns, and a
/// stretch of `─` two wider than each column.
pub open spec fn hborder_row(widths: Seq<usize>, left: char, mid: char, right: char, look: MdLook) -> LineView {
    LineView {
        runs: seq![(seq![left], look)] + border_runs(widths, mid, look) + seq![(seq![right], look)],
        look: MdLook::Plain,
    }
}

fn char_run(c: char, look: MdLook) -> (r: MdRun)
    ensures
        r.deep_view() == (seq![c], look),
{
    let mut t: Vec<char> = Vec::new();
    t.push(c);
    MdRun { text: string_of(&t), look }
}

pub fn render_hborder(widths: &Vec<usize>, left: char, mid: char, right: char, look: MdLook) -> (r: MdLine)
    requires
        forall|i: int| 0 <= i < widths.len() ==> widths[i] <= usize::MAX - 2,
    ensures
        r.deep_view() == hborder_row(widths@, left, mid, right, look),
{
    let mut parts: Vec<MdRun> = Vec::new();
    parts.push(char_run(left, look));
    let mut i: usize = 0;
    assert(parts.deep_view() =~= seq![(seq![left], look)] + border_runs(widths@.take(0), mid, look));
    while i < widths.len()
        invariant
            i <= widths.len(),
            forall|k: int| 0 <= k < widths.len() ==> widths[k] <= usize::MAX - 2,
            parts.deep_view() == seq![(seq![left], look)] + border_runs(widths@.take(i as int), mid, look),
        decreases widths.len() - i,
    {
        assert(widths@.take(i + 1).drop_last() =~= widths@.take(i as int));
        let ghost p0 = parts.deep_view();
        if i > 0 {
            parts.push(char_run(mid, look));
        }
        let ghost p1 = parts.deep_view();
        assert(p1 =~= p0 + if i > 0 {
            seq![(seq![mid], look)]
        } else {
            Seq::<(Seq<char>, MdLook)>::empty()
        });
        let d = repeated('─', widths[i] + 2);
        let dash = string_of(&d);
        assert(widths@.take(i + 1).last() == widths[i as int]);
        assert(widths@.take(i + 1).len() == i + 1);
        parts.push(MdRun { text: dash, look });
        assert(parts.deep_view() =~= p1.push((repeat_char('─', (widths[i as int] + 2) as nat), look)));
        i += 1;
        assert(parts.deep_view() =~= seq![(seq![left], look)] + border_runs(widths@.take(i as int), mid, look));
    }
    assert(widths@.take(i as int) =~= widths@);
    let ghost p2 = parts.deep_view();
    parts.push(char_run(right, look));
    assert(parts.deep_view() =~= p2 + seq![(seq![right], look)]);
    MdLine { runs: parts, look: MdLook::Plain }
}

pub open spec fn wrapped_cells(cells: Seq<Seq<char>>, widths: Seq<usize>, hard: bool) -> Seq<Seq<Seq<char>>> {
    Seq::new(cells.len(), |i: int| cell_wrapped(cells[i], col_width_of(widths, i), hard))
}

pub open spec fn lens_max(cl: Seq<Seq<Seq<char>>>) -> nat
    decreases cl.len(),
{
    if cl.len() == 0 {
        0
    } else {
        let p = lens_max(cl.drop_last());
        if cl.last().len() > p {
            cl.last().len()
        } else {
            p
        }
    }
}

/// The rows a table row takes: its tallest cell's.
pub open spec fn row_height(cl: Seq<Seq<Seq<char>>>) -> nat {
    if cl.len() == 0 {
        1
    } else {
        lens_max(cl)
    }
}

/// The text a cell shows on a row of its table row: cells shorter than the
/// row are centred vertically.
pub open spec fn cell_at(lines: Seq<Seq<char>>, li: nat, height: nat) -> Seq<char> {
    let off = (height - lines.len()) / 2;
    if li >= off && li - off < lines.len() {
        lines[li - off]
    } else {
        seq![]
    }
}

/// A cell on one row: a bar between cells, the text, and spaces to the
/// column's width.
pub open spec fn cell_runs(ci: nat, text: Seq<char>, width: nat, look: MdLook, border: MdLook) -> Seq<(Seq<char>, MdLook)> {
    (if ci > 0 {
        seq![(seq![' '], MdLook::Plain), (seq!['│'], border), (seq![' '], MdLook::Plain)]
    } else {
        seq![]
    }) + seq![(text, look), (spaces(sub0(width, text_width(text) as nat)), MdLook::Plain)]
}

pub open spec fn cells_runs(
    cl: Seq<Seq<Seq<char>>>,
    k: nat,
    li: nat,
    height: nat,
    widths: Seq<usize>,
    look: MdLook,
    border: MdLook,
) -> Seq<(Seq<char>, MdLook)>
    decreases k,
{
    if k == 0 {
        seq![]
    } else {
        let ci = (k - 1) as nat;
        cells_runs(cl, ci, li, height, widths, look, border) + cell_runs(
            ci,
            cell_at(cl[ci as int], li, height),
            col_width_of(widths, ci as int),
            look,
            border,
        )
    }
}

/// A table row, its cells wrapped to their columns, side by side between
/// bars.
pub open spec fn ml_row_view(cells: Seq<Seq<char>>, widths: Seq<usize>, look: MdLook, border: MdLook, hard: bool) -> Seq<LineView> {
    let cl = wrapped_cells(cells, widths, hard);
    let height = row_height(cl);
    Seq::new(
        height,
        |li: int|
            LineView {
                runs: seq![(seq!['│'], border), (seq![' '], MdLook::Plain)] + cells_runs(
                    cl,
                    cl.len(),
                    li as nat,
                    height,
                    widths,
                    look,
                    border,
                ) + seq![(seq![' '], MdLook::Plain), (seq!['│'], border)],
                look: MdLook::Plain,
            },
    )
}

fn text_run(t: Vec<char>, look: MdLook) -> (r: MdRun)
    ensures
        r.deep_view() == (t@, look),
{
    MdRun { text: string_of(&t), look }
}

fn row_of_cells(
    cl: &Vec<Vec<Vec<char>>>,
    li: usize,
    height: usize,
    widths: &Vec<usize>,
    look: MdLook,
    border: MdLook,
) -> (r: MdLine)
    requires
        forall|i: int| 0 <= i < cl.len() ==> (#[trigger] cl@[i]).len() <= height,
    ensures
        r.deep_view() == (LineView {
            runs: seq![(seq!['│'], border), (seq![' '], MdLook::Plain)] + cells_runs(
                vvv(cl@),
                cl.len() as nat,
                li as nat,
                height as nat,
                widths@,
                look,
                border,
            ) + seq![(seq![' '], MdLook::Plain), (seq!['│'], border)],
            look: MdLook::Plain,
        }),
{
    let ghost c = vvv(cl@);
    let mut parts: Vec<MdRun> = Vec::new();
    parts.push(char_run('│', border));
    parts.push(char_run(' ', MdLook::Plain));
    let ghost head = parts.deep_view();
    assert(head =~= seq![(seq!['│'], border), (seq![' '], MdLook::Plain)]);
    let mut ci: usize = 0;
    while ci < cl.len()
        invariant
            ci <= cl.len(),
            c == vvv(cl@),
            forall|i: int| 0 <= i < cl.len() ==> (#[trigger] cl@[i]).len() <= height,
            parts.deep_view() == head + cells_runs(c, ci as nat, li as nat, height as nat, widths@, look, border),
        decreases cl.len() - ci,
    {
        let ghost p0 = parts.deep_view();
        if ci > 0 {
            parts.push(char_run(' ', MdLook::Plain));
            parts.push(char_run('│', border));
            parts.push(char_run(' ', MdLook::Plain));
        }
        let ghost p1 = parts.deep_view();
        let lines = &cl[ci];
        let off = (height - lines.len()) / 2;
        let text: Vec<char> = if li >= off && li - off < lines.len() {
            lines[li - off].clone()
        } else {
            Vec::new()
        };
        assert(text@ == cell_at(c[ci as int], li as nat, height as nat));
        let w = width_at(widths, ci);
        let tw = text_columns(string_of(&text).as_str());
        let pad: usize = if w > tw {
            w - tw
        } else {
            0
        };
        let ghost tv = text@;
        assert(p1 =~= p0 + if ci > 0 {
            seq![(seq![' '], MdLook::Plain), (seq!['│'], border), (seq![' '], MdLook::Plain)]
        } else {
            Seq::<(Seq<char>, MdLook)>::empty()
        });
        parts.push(text_run(text, look));
        parts.push(text_run(space_chars(pad), MdLook::Plain));
        assert(parts.deep_view() =~= p1 + seq![(tv, look), (spaces(pad as nat), MdLook::Plain)]);
        assert(pad as nat == sub0(w as nat, text_width(tv) as nat));
        assert(parts.deep_view() =~= p0 + cell_runs(ci as nat, tv, w as nat, look, border));
        ci += 1;
        assert(parts.deep_view() =~= head + cells_runs(c, ci as nat, li as nat, height as nat, widths@, look, border));
    }
    let ghost p2 = parts.deep_view();
    parts.push(char_run(' ', MdLook::Plain));
    parts.push(char_run('│', border));
    assert(parts.deep_view() =~= p2 + seq![(seq![' '], MdLook::Plain), (seq!['│'], border)]);
    MdLine { runs: parts, look: MdLook::Plain }
}

pub fn render_ml_row(
    cells: &Vec<Vec<char>>,
    widths: &Vec<usize>,
    cell_look: MdLook,
    border_look: MdLook,
    hard_wrap: bool,
) -> (r: Vec<MdLine>)
    ensures
        r.deep_view() == ml_row_view(vv(cells@), widths@, cell_look, border_look, hard_wrap),
{
    let ghost cv = vv(cells@);
    let mut cl: Vec<Vec<Vec<char>>> = Vec::new();
    let mut height: usize = 0;
    let mut i: usize = 0;
    while i < cells.len()
        invariant
            i <= cells.len(),
            cv == vv(cells@),
            vvv(cl@) == wrapped_cells(cv, widths@, hard_wrap).take(i as int),
            height == lens_max(vvv(cl@)),
            forall|k: int| 0 <= k < cl.len() ==> (#[trigger] cl@[k]).len() <= height,
            forall|k: int| 0 <= k < cl.len() ==> (#[trigger] cl@[k]).len() >= 1,
        decreases cells.len() - i,
    {
        let w = wrap_cell_text(&cells[i], width_at(widths, i), hard_wrap);
        let n = w.len();
        let ghost c0 = vvv(cl@);
        cl.push(w);
        assert(vvv(cl@) =~= c0.push(vv(w@)));
        assert(vvv(cl@).drop_last() =~= c0);
        if n > height {
            height = n;
        }
        i += 1;
        assert(vvv(cl@) =~= wrapped_cells(cv, widths@, hard_wrap).take(i as int));
    }
    assert(wrapped_cells(cv, widths@, hard_wrap).take(i as int) =~= wrapped_cells(cv, widths@, hard_wrap));
    if cl.len() == 0 {
        height = 1;
    }
    let ghost c = vvv(cl@);
    assert(height == row_height(c));
    let mut out: Vec<MdLine> = Vec::new();
    let mut li: usize = 0;
    while li < height
        invariant
            li <= height,
            c == vvv(cl@),
            c == wrapped_cells(cv, widths@, hard_wrap),
            height == row_height(c),
            forall|k: int| 0 <= k < cl.len() ==> (#[trigger] cl@[k]).len() <= height,
            out.deep_view() == ml_row_view(cv, widths@, cell_look, border_look, hard_wrap).take(li as int),
        decreases height - li,
    {
        let l = row_of_cells(&cl, li, height, widths, cell_look, border_look);
        push_line(&mut out, l);
        li += 1;
        assert(out.deep_view() =~= ml_row_view(cv, widths@, cell_look, border_look, hard_wrap).take(li as int));
    }
    assert(ml_row_view(cv, widths@, cell_look, border_look, hard_wrap).take(li as int) =~= ml_row_view(
        cv,
        widths@,
        cell_look,
        border_look,
        hard_wrap,
    ));
    out
}

// ---------------------------------------------------------------------------
// The narrow layout: one "label: value" row per cell.
// ---------------------------------------------------------------------------

/// The continuation rows of a value, re-wrapped, blank ones left out.
pub open spec fn cont_rows(conts: Seq<Seq<char>>, rest_w: nat) -> Seq<LineView>
    decreases conts.len(),
{
    if conts.len() == 0 {
        seq![]
    } else {
        cont_rows(conts.drop_last(), rest_w) + nonblank_rows(cell_wrapped(conts.last(), rest_w, false))
    }
}

pub open spec fn nonblank_rows(ls: Seq<Seq<char>>) -> Seq<LineView>
    decreases ls.len(),
{
    if ls.len() == 0 {
        seq![]
    } else {
        nonblank_rows(ls.drop_last()) + if trim(ls.last()).len() > 0 {
            seq![
                LineView {
                    runs: seq![(seq![' ', ' '], MdLook::Plain), (ls.last(), MdLook::TableCell)],
                    look: MdLook::Plain,
                },
            ]
        } else {
            seq![]
        }
    }
}

/// A cell as "label: value", the value word-wrapped after the label and
/// its further rows indented by two spaces.
pub open spec fn vt_cell_rows(label: Seq<char>, raw: Seq<char>, max: nat) -> Seq<LineView> {
    let first_w = sub0(max, (text_width(label) + 2) as nat);
    let wr = cell_wrapped(trim(raw), if first_w < 10 { 10 } else { first_w }, false);
    let head = LineView {
        runs: seq![(label + seq![':', ' '], MdLook::TableHeader)] + if wr.len() > 0 {
            seq![(wr[0], MdLook::TableCell)]
        } else {
            seq![]
        },
        look: MdLook::Plain,
    };
    seq![head] + cont_rows(wr.drop_first(), sub0(max, 2))
}

pub open spec fn label_at(headers: Seq<Seq<char>>, ci: int) -> Seq<char> {
    if 0 <= ci < headers.len() {
        headers[ci]
    } else {
        seq!['?']
    }
}

pub open spec fn vt_row_rows(headers: Seq<Seq<char>>, row: Seq<Seq<char>>, max: nat) -> Seq<LineView>
    decreases row.len(),
{
    if row.len() == 0 {
        seq![]
    } else {
        vt_row_rows(headers, row.drop_last(), max) + vt_cell_rows(label_at(headers, row.len() - 1), row.last(), max)
    }
}

/// Rows separated by a rule of at most 40 columns.
pub open spec fn vertical_view(headers: Seq<Seq<char>>, rows: Seq<Seq<Seq<char>>>, max: nat) -> Seq<LineView>
    decreases rows.len(),
{
    if rows.len() == 0 {
        seq![]
    } else {
        vertical_view(headers, rows.drop_last(), max) + (if rows.len() > 1 {
            seq![styled_row(repeat_char('─', if max < 40 { max } else { 40 }), MdLook::Border)]
        } else {
            seq![]
        }) + vt_row_rows(headers, rows.last(), max)
    }
}

fn two_runs(a: MdRun, b: MdRun) -> (r: Vec<MdRun>)
    ensures
        r.deep_view() == seq![a.deep_view(), b.deep_view()],
{
    let mut r: Vec<MdRun> = Vec::new();
    r.push(a);
    r.push(b);
    assert(r.deep_view() =~= seq![a.deep_view(), b.deep_view()]);
    r
}

fn nonblank_lines(ls: &Vec<Vec<char>>) -> (r: Vec<MdLine>)
    ensures
        r.deep_view() == nonblank_rows(vv(ls@)),
{
    let ghost lv = vv(ls@);
    let mut out: Vec<MdLine> = Vec::new();
    let mut i: usize = 0;
    while i < ls.len()
        invariant
            i <= ls.len(),
            lv == vv(ls@),
            out.deep_view() == nonblank_rows(lv.take(i as int)),
        decreases ls.len() - i,
    {
        assert(lv.take(i + 1).drop_last() =~= lv.take(i as int));
        if trim_chars(&ls[i]).len() > 0 {
            let mut two: Vec<char> = Vec::new();
            two.push(' ');
            two.push(' ');
            assert(two@ =~= seq![' ', ' ']);
            let runs = two_runs(text_run(two, MdLook::Plain), text_run(ls[i].clone(), MdLook::TableCell));
            let l = MdLine { runs, look: MdLook::Plain };
            assert(l.deep_view().runs =~= seq![(seq![' ', ' '], MdLook::Plain), (lv[i as int], MdLook::TableCell)]);
            push_line(&mut out, l);
        }
        i += 1;
        assert(out.deep_view() =~= nonblank_rows(lv.take(i as int)));
    }
    assert(lv.take(i as int) =~= lv);
    out
}

fn vt_cell_lines(label: &Vec<char>, raw: &Vec<char>, max: usize) -> (r: Vec<MdLine>)
    ensures
        r.deep_view() == vt_cell_rows(label@, raw@, max as nat),
{
    let lw = text_columns(string_of(label).as_str());
    let first_w: usize = if lw >= max || max - lw < 2 {
        0
    } else {
        max - lw - 2
    };
    assert(first_w as nat == sub0(max as nat, (text_width(label@) + 2) as nat));
    let value = trim_chars(raw);
    let wr = wrap_cell_text(&value, if first_w < 10 { 10 } else { first_w }, false);
    let ghost wv = vv(wr@);
    assert(wv == cell_wrapped(trim(raw@), if first_w < 10 { 10 } else { first_w as nat }, false));
    let mut lab = label.clone();
    lab.push(':');
    lab.push(' ');
    assert(lab@ =~= label@ + seq![':', ' ']);
    let head_runs = two_runs(text_run(lab, MdLook::TableHeader), text_run(wr[0].clone(), MdLook::TableCell));
    let mut out: Vec<MdLine> = Vec::new();
    let head = MdLine { runs: head_runs, look: MdLook::Plain };
    assert(head.deep_view().runs =~= seq![(label@ + seq![':', ' '], MdLook::TableHeader), (wv[0], MdLook::TableCell)]);
    let ghost head_view = head.deep_view();
    push_line(&mut out, head);
    let rest_w: usize = if max > 2 {
        max - 2
    } else {
        0
    };
    let mut k: usize = 1;
    let ghost h = out.deep_view();
    assert(wv.drop_first().take(0) =~= Seq::<Seq<char>>::empty());
    while k < wr.len()
        invariant
            1 <= k <= wr.len(),
            wv == vv(wr@),
            out.deep_view() == h + cont_rows(wv.drop_first().take(k - 1), rest_w as nat),
        decreases wr.len() - k,
    {
        assert(wv.drop_first().take(k as int).drop_last() =~= wv.drop_first().take(k - 1));
        let re = wrap_cell_text(&wr[k], rest_w, false);
        let more = nonblank_lines(&re);
        append_lines(&mut out, more);
        k += 1;
        assert(out.deep_view() =~= h + cont_rows(wv.drop_first().take(k - 1), rest_w as nat));
    }
    assert(wv.drop_first().take(k - 1) =~= wv.drop_first());
    assert(rest_w as nat == sub0(max as nat, 2));
    assert(h =~= seq![head_view]);
    assert(head_view.runs =~= seq![(label@ + seq![':', ' '], MdLook::TableHeader)] + if wv.len() > 0 {
        seq![(wv[0], MdLook::TableCell)]
    } else {
        Seq::<(Seq<char>, MdLook)>::empty()
    });
    out
}

fn label_of(headers: &Vec<Vec<char>>, ci: usize) -> (r: Vec<char>)
    ensures
        r@ == label_at(vv(headers@), ci as int),
{
    if ci < headers.len() {
        headers[ci].clone()
    } else {
        let mut q: Vec<char> = Vec::new();
        q.push('?');
        q
    }
}

/// A table as "label: value" rows, for a terminal too narrow for columns.
pub fn render_vertical_table(headers: &Vec<Vec<char>>, rows: &Vec<Vec<Vec<char>>>, max_width: usize) -> (r: Vec<MdLine>)
    ensures
        r.deep_view() == vertical_view(vv(headers@), vvv(rows@), max_width as nat),
{
    let ghost hv = vv(headers@);
    let ghost rv = vvv(rows@);
    let sep = repeated('─', if max_width < 40 { max_width } else { 40 });
    let mut out: Vec<MdLine> = Vec::new();
    let mut ri: usize = 0;
    while ri < rows.len()
        invariant
            ri <= rows.len(),
            hv == vv(headers@),
            rv == vvv(rows@),
            sep@ == repeat_char('─', if max_width < 40 { max_width as nat } else { 40 }),
            out.deep_view() == vertical_view(hv, rv.take(ri as int), max_width as nat),
        decreases rows.len() - ri,
    {
        assert(rv.take(ri + 1).drop_last() =~= rv.take(ri as int));
        if ri > 0 {
            push_line(&mut out, styled_line(sep.clone(), MdLook::Border));
        }
        let row = &rows[ri];
        let ghost rowv = vv(row@);
        assert(rv.take(ri + 1).last() == rowv);
        let ghost base = out.deep_view();
        let mut ci: usize = 0;
        while ci < row.len()
            invariant
                ci <= row.len(),
                rowv == vv(row@),
                hv == vv(headers@),
                out.deep_view() == base + vt_row_rows(hv, rowv.take(ci as int), max_width as nat),
            decreases row.len() - ci,
        {
            assert(rowv.take(ci + 1).drop_last() =~= rowv.take(ci as int));
            let label = label_of(headers, ci);
            let cell_rows = vt_cell_lines(&label, &row[ci], max_width);
            append_lines(&mut out, cell_rows);
            ci += 1;
            assert(out.deep_view() =~= base + vt_row_rows(hv, rowv.take(ci as int), max_width as nat));
        }
        assert(rowv.take(ci as int) =~= rowv);
        ri += 1;
        assert(out.deep_view() =~= vertical_view(hv, rv.take(ri as int), max_width as nat));
    }
    assert(rv.take(ri as int) =~= rv);
    out
}

// ---------------------------------------------------------------------------
// Column widths.
// ---------------------------------------------------------------------------

/// The widest word of a text; none gives 0.
pub open spec fn max_word_width(ws: Seq<Seq<char>>) -> nat
    decreases ws.len(),
{
    if ws.len() == 0 {
        0
    } else {
        let p = max_word_width(ws.drop_last());
        let w = text_width(ws.last()) as nat;
        if w > p {
            w
        } else {
            p
        }
    }
}

pub open spec fn max3(a: nat, b: nat) -> nat {
    if a > b {
        a
    } else {
        b
    }
}

/// A column's least width: its widest word (3 columns at least).
pub open spec fn col_min_of(rows: Seq<Seq<Seq<char>>>, ci: int) -> nat
    decreases rows.len(),
{
    if rows.len() == 0 {
        3
    } else {
        let p = col_min_of(rows.drop_last(), ci);
        let r = rows.last();
        if 0 <= ci < r.len() {
            max3(p, max3(max_word_width(words(r[ci])), 3))
        } else {
            p
        }
    }
}

/// A column's ideal width: its widest text (3 columns at least).
pub open spec fn col_ideal_of(rows: Seq<Seq<Seq<char>>>, ci: int) -> nat
    decreases rows.len(),
{
    if rows.len() == 0 {
        3
    } else {
        let p = col_ideal_of(rows.drop_last(), ci);
        let r = rows.last();
        if 0 <= ci < r.len() {
            max3(p, text_width(r[ci]) as nat)
        } else {
            p
        }
    }
}

pub open spec fn total(s: Seq<nat>) -> nat
    decreases s.len(),
{
    if s.len() == 0 {
        0
    } else {
        total(s.drop_last()) + s.last()
    }
}

/// The columns left for text: the width less the bars and padding (three
/// columns a column, one more) and a margin of four.
pub open spec fn available_width(n: nat, max: nat) -> nat {
    sub0(sub0(max, 1 + 3 * n), 4)
}

/// Least widths, each grown by its share of the spare room in proportion to
/// how much it falls short of its ideal.
pub open spec fn shrunk(mins: Seq<nat>, ideals: Seq<nat>, extra: nat) -> Seq<nat> {
    let over = Seq::new(mins.len(), |i: int| sub0(ideals[i], mins[i]));
    let tot = total(over);
    Seq::new(mins.len(), |i: int| mins[i] + if tot == 0 { 0 } else { over[i] * extra / tot })
}

/// How a table's columns are sized.
pub enum WidthsPlan {
    /// Final widths, text wrapped at words.
    Fitted(Seq<nat>),
    /// Even the least widths do not fit: they are to be scaled down to the
    /// room available, and words broken.
    Scale(Seq<nat>, nat),
}

/// Ideal widths where they fit; else the least widths and a proportional
/// share of the rest where those fit; else the least widths, to be scaled.
pub open spec fn widths_plan(rows: Seq<Seq<Seq<char>>>, n: nat, max: nat) -> WidthsPlan {
    let mins = Seq::new(n, |ci: int| col_min_of(rows, ci));
    let ideals = Seq::new(n, |ci: int| col_ideal_of(rows, ci));
    let avail = available_width(n, max);
    if total(ideals) <= avail {
        WidthsPlan::Fitted(ideals)
    } else if total(mins) <= avail {
        WidthsPlan::Fitted(shrunk(mins, ideals, (avail - total(mins)) as nat))
    } else {
        WidthsPlan::Scale(mins, avail)
    }
}

pub enum TableWidths {
    Fitted(Vec<usize>),
    Scale { min_widths: Vec<usize>, available: usize },
}

pub open spec fn nats(v: Seq<usize>) -> Seq<nat> {
    Seq::new(v.len(), |i: int| v[i] as nat)
}

pub open spec fn plan_view(t: TableWidths) -> WidthsPlan {
    match t {
        TableWidths::Fitted(w) => WidthsPlan::Fitted(nats(w@)),
        TableWidths::Scale { min_widths, available } => WidthsPlan::Scale(nats(min_widths@), available as nat),
    }
}

pub proof fn lemma_total_bound(s: Seq<nat>, i: int)
    requires
        0 <= i < s.len(),
    ensures
        s[i] <= total(s),
    decreases s.len(),
{
    if i < s.len() - 1 {
        lemma_total_bound(s.drop_last(), i);
    }
}

pub proof fn lemma_total_max(s: Seq<nat>, m: nat)
    requires
        forall|i: int| 0 <= i < s.len() ==> s[i] <= m,
    ensures
        total(s) <= s.len() * m,
    decreases s.len(),
{
    if s.len() > 0 {
        lemma_total_max(s.drop_last(), m);
        assert(total(s) <= (s.len() - 1) * m + m);
        assert((s.len() - 1) * m + m == s.len() * m) by (nonlinear_arith);
    }
}

fn widest_word(t: &Vec<char>) -> (r: usize)
    ensures
        r == max_word_width(words(t@)),
{
    let ws = crate::text::split_whitespace(t);
    let ghost wv = vv(ws@);
    let mut m: usize = 0;
    let mut i: usize = 0;
    while i < ws.len()
        invariant
            i <= ws.len(),
            wv == vv(ws@),
            wv == words(t@),
            m == max_word_width(wv.take(i as int)),
        decreases ws.len() - i,
    {
        assert(wv.take(i + 1).drop_last() =~= wv.take(i as int));
        let w = text_columns(string_of(&ws[i]).as_str());
        if w > m {
            m = w;
        }
        i += 1;
    }
    assert(wv.take(i as int) =~= wv);
    m
}

fn bounds_step(mn: usize, id: usize, row: &Vec<Vec<char>>, ci: usize) -> (r: (usize, usize))
    ensures
        r.0 == (if ci < row.len() {
            max3(mn as nat, max3(max_word_width(words(row@[ci as int]@)), 3))
        } else {
            mn as nat
        }),
        r.1 == (if ci < row.len() {
            max3(id as nat, text_width(row@[ci as int]@) as nat)
        } else {
            id as nat
        }),
{
    let mut mn = mn;
    let mut id = id;
    if ci < row.len() {
        let ww = widest_word(&row[ci]);
        let cand = if ww > 3 {
            ww
        } else {
            3
        };
        if cand > mn {
            mn = cand;
        }
        let tw = text_columns(string_of(&row[ci]).as_str());
        if tw > id {
            id = tw;
        }
    }
    (mn, id)
}

fn column_bounds(headers: &Vec<Vec<char>>, rows: &Vec<Vec<Vec<char>>>, ci: usize) -> (r: (usize, usize))
    ensures
        r.0 == col_min_of(table_rows(vv(headers@), vvv(rows@)), ci as int),
        r.1 == col_ideal_of(table_rows(vv(headers@), vvv(rows@)), ci as int),
{
    let ghost rv = table_rows(vv(headers@), vvv(rows@));
    assert(rv.take(1).drop_last() =~= Seq::<Seq<Seq<char>>>::empty());
    assert(rv.take(1).last() == vv(headers@));
    let (mut mn, mut id) = bounds_step(3, 3, headers, ci);
    assert(rv.take(1).len() == 1);
    assert(vv(headers@).len() == headers@.len());
    if ci < headers.len() {
        assert(vv(headers@)[ci as int] == headers@[ci as int]@);
    }
    assert(col_min_of(Seq::<Seq<Seq<char>>>::empty(), ci as int) == 3);
    assert(col_ideal_of(Seq::<Seq<Seq<char>>>::empty(), ci as int) == 3);
    assert(mn == col_min_of(rv.take(1), ci as int));
    assert(id == col_ideal_of(rv.take(1), ci as int));
    let mut k: usize = 0;
    while k < rows.len()
        invariant
            k <= rows.len(),
            rv == table_rows(vv(headers@), vvv(rows@)),
            mn == col_min_of(rv.take(k + 1), ci as int),
            id == col_ideal_of(rv.take(k + 1), ci as int),
        decreases rows.len() - k,
    {
        assert(rv.take(k + 2).drop_last() =~= rv.take(k + 1));
        assert(rv.take(k + 2).last() == vv(rows@[k as int]@));
        assert(vv(rows@[k as int]@).len() == rows@[k as int]@.len());
        if ci < rows[k].len() {
            assert(vv(rows@[k as int]@)[ci as int] == rows@[k as int]@[ci as int]@);
        }
        let (a, b) = bounds_step(mn, id, &rows[k], ci);
        mn = a;
        id = b;
        k += 1;
    }
    assert(rv.take(k + 1) =~= rv);
    (mn, id)
}

fn sum_widths(v: &Vec<usize>) -> (r: u128)
    ensures
        r == total(nats(v@)),
{
    let ghost nv = nats(v@);
    let mut acc: u128 = 0;
    let mut i: usize = 0;
    while i < v.len()
        invariant
            i <= v.len(),
            nv == nats(v@),
            acc == total(nv.take(i as int)),
            acc <= i * (usize::MAX as int),
        decreases v.len() - i,
    {
        assert(nv.take(i + 1).drop_last() =~= nv.take(i as int));
        let x = v[i];
        assert(acc + x <= (i + 1) * (usize::MAX as int)) by (nonlinear_arith)
            requires
                acc <= i * (usize::MAX as int),
                x <= usize::MAX,
        ;
        assert((i + 1) * (usize::MAX as int) <= (usize::MAX as int) * (usize::MAX as int)) by (nonlinear_arith)
            requires
                i < usize::MAX,
        ;
        assert((usize::MAX as int) * (usize::MAX as int) < u128::MAX) by (nonlinear_arith);
        acc = acc + x as u128;
        i += 1;
    }
    assert(nv.take(i as int) =~= nv);
    acc
}

/// Sizes a table's columns from the cell texts of its header and rows.
pub fn table_widths(
    headers: &Vec<Vec<char>>,
    rows: &Vec<Vec<Vec<char>>>,
    col_count: usize,
    max_width: usize,
) -> (r: TableWidths)
    ensures
        plan_view(r) == widths_plan(table_rows(vv(headers@), vvv(rows@)), col_count as nat, max_width as nat),
{
    let ghost tr = table_rows(vv(headers@), vvv(rows@));
    let mut mins: Vec<usize> = Vec::new();
    let mut ideals: Vec<usize> = Vec::new();
    let mut ci: usize = 0;
    while ci < col_count
        invariant
            ci <= col_count,
            tr == table_rows(vv(headers@), vvv(rows@)),
            nats(mins@) == Seq::new(col_count as nat, |c: int| col_min_of(tr, c)).take(ci as int),
            nats(ideals@) == Seq::new(col_count as nat, |c: int| col_ideal_of(tr, c)).take(ci as int),
        decreases col_count - ci,
    {
        let (mn, id) = column_bounds(headers, rows, ci);
        let ghost m0 = nats(mins@);
        let ghost i0 = nats(ideals@);
        mins.push(mn);
        ideals.push(id);
        assert(nats(mins@) =~= m0.push(mn as nat));
        assert(nats(ideals@) =~= i0.push(id as nat));
        ci += 1;
        assert(nats(mins@) =~= Seq::new(col_count as nat, |c: int| col_min_of(tr, c)).take(ci as int));
        assert(nats(ideals@) =~= Seq::new(col_count as nat, |c: int| col_ideal_of(tr, c)).take(ci as int));
    }
    let ghost mv = Seq::new(col_count as nat, |c: int| col_min_of(tr, c));
    let ghost iv = Seq::new(col_count as nat, |c: int| col_ideal_of(tr, c));
    assert(nats(mins@) =~= mv);
    assert(nats(ideals@) =~= iv);
    let overhead: u128 = 1 + 3 * (col_count as u128);
    let mw = max_width as u128;
    let a1: u128 = if mw > overhead {
        mw - overhead
    } else {
        0
    };
    let avail: u128 = if a1 > 4 {
        a1 - 4
    } else {
        0
    };
    assert(avail == available_width(col_count as nat, max_width as nat));
    let total_min = sum_widths(&mins);
    let total_ideal = sum_widths(&ideals);
    if total_ideal <= avail {
        return TableWidths::Fitted(ideals);
    }
    if total_min <= avail {
        let extra: u128 = avail - total_min;
        let mut over: Vec<usize> = Vec::new();
        let mut i: usize = 0;
        while i < col_count
            invariant
                i <= col_count,
                mins@.len() == col_count,
                ideals@.len() == col_count,
                nats(over@) == Seq::new(col_count as nat, |c: int| sub0(iv[c], mv[c])).take(i as int),
                nats(mins@) == mv,
                nats(ideals@) == iv,
            decreases col_count - i,
        {
            let o: usize = if ideals[i] > mins[i] {
                ideals[i] - mins[i]
            } else {
                0
            };
            let ghost o0 = nats(over@);
            over.push(o);
            assert(nats(over@) =~= o0.push(o as nat));
            i += 1;
            assert(nats(over@) =~= Seq::new(col_count as nat, |c: int| sub0(iv[c], mv[c])).take(i as int));
        }
        let ghost ov = Seq::new(col_count as nat, |c: int| sub0(iv[c], mv[c]));
        assert(nats(over@) =~= ov);
        let tot = sum_widths(&over);
        assert(Seq::new(mv.len(), |c: int| sub0(iv[c], mv[c])) =~= ov);
        let mut widths: Vec<usize> = Vec::new();
        let mut j: usize = 0;
        while j < col_count
            invariant
                j <= col_count,
                mins@.len() == col_count,
                over@.len() == col_count,
                nats(mins@) == mv,
                nats(over@) == ov,
                Seq::new(mv.len(), |c: int| sub0(iv[c], mv[c])) == ov,
                mv.len() == col_count,
                tot == total(ov),
                total_min == total(mv),
                extra == avail - total_min,
                total_min <= avail,
                avail <= usize::MAX,
                nats(widths@) == shrunk(mv, iv, extra as nat).take(j as int),
            decreases col_count - j,
        {
            let m = mins[j];
            let o = over[j];
            proof {
                lemma_total_bound(mv, j as int);
                lemma_total_bound(ov, j as int);
            }
            let share: u128 = if tot == 0 {
                0
            } else {
                assert((o as int) * (extra as int) <= (usize::MAX as int) * (usize::MAX as int)) by (nonlinear_arith)
                    requires
                        o <= usize::MAX,
                        extra <= usize::MAX,
                ;
                assert((usize::MAX as int) * (usize::MAX as int) < u128::MAX) by (nonlinear_arith);
                assert((o as int) * (extra as int) / (tot as int) <= extra as int) by (nonlinear_arith)
                    requires
                        o <= tot,
                        tot > 0,
                ;
                (o as u128) * extra / tot
            };
            assert(share <= extra);
            assert(m as nat == mv[j as int]);
            assert(o as nat == ov[j as int]);
            assert(share as nat == (if tot == 0 {
                0
            } else {
                ov[j as int] * (extra as nat) / (tot as nat)
            }));
            assert(shrunk(mv, iv, extra as nat)[j as int] == mv[j as int] + (if tot == 0 {
                0
            } else {
                ov[j as int] * (extra as nat) / (tot as nat)
            }));
            assert(m + share <= avail);
            let ghost w0 = nats(widths@);
            widths.push((m as u128 + share) as usize);
            assert(nats(widths@) =~= w0.push((m + share) as nat));
            j += 1;
            assert(nats(widths@) =~= shrunk(mv, iv, extra as nat).take(j as int));
        }
        assert(shrunk(mv, iv, extra as nat).take(j as int) =~= shrunk(mv, iv, extra as nat));
        return TableWidths::Fitted(widths);
    }
    TableWidths::Scale { min_widths: mins, available: avail as usize }
}

// ---------------------------------------------------------------------------
// A whole table.
// ---------------------------------------------------------------------------

pub open spec fn body_rows(rows: Seq<Seq<Seq<char>>>, widths: Seq<usize>, hard: bool) -> Seq<LineView>
    decreases rows.len(),
{
    if rows.len() == 0 {
        seq![]
    } else {
        body_rows(rows.drop_last(), widths, hard) + ml_row_view(
            rows.last(),
            widths,
            MdLook::TableCell,
            MdLook::TableBorder,
            hard,
        )
    }
}

/// The framed layout: a top border, the header, a rule, the rows and a
/// bottom border.
pub open spec fn grid_rows(headers: Seq<Seq<char>>, rows: Seq<Seq<Seq<char>>>, widths: Seq<usize>, hard: bool) -> Seq<LineView> {
    seq![hborder_row(widths, '┌', '┬', '┐', MdLook::TableBorder)] + ml_row_view(
        headers,
        widths,
        MdLook::TableHeader,
        MdLook::TableBorder,
        hard,
    ) + seq![hborder_row(widths, '├', '┼', '┤', MdLook::TableBorder)] + body_rows(rows, widths, hard)
        + seq![hborder_row(widths, '└', '┴', '┘', MdLook::TableBorder)]
}

pub open spec fn runs_width(runs: Seq<(Seq<char>, MdLook)>) -> nat
    decreases runs.len(),
{
    if runs.len() == 0 {
        0
    } else {
        runs_width(runs.drop_last()) + text_width(runs.last().0) as nat
    }
}

pub open spec fn widest(lines: Seq<LineView>) -> nat
    decreases lines.len(),
{
    if lines.len() == 0 {
        0
    } else {
        max3(widest(lines.drop_last()), runs_width(lines.last().runs))
    }
}

/// A table laid out in the given column widths: framed, unless a cell
/// wraps into more than four rows or the frame comes out wider than the
/// width less a margin of four; then as "label: value" rows.
pub open spec fn table_view(
    headers: Seq<Seq<char>>,
    rows: Seq<Seq<Seq<char>>>,
    widths: Seq<usize>,
    hard: bool,
    max: nat,
) -> Seq<LineView> {
    if max_row_lines(table_rows(headers, rows), widths, hard) > 4 {
        vertical_view(headers, rows, max)
    } else {
        let g = grid_rows(headers, rows, widths, hard);
        if widest(g) > sub0(max, 4) {
            vertical_view(headers, rows, max)
        } else {
            g
        }
    }
}

fn line_width(l: &MdLine) -> (r: u128)
    ensures
        r == runs_width(l.deep_view().runs),
{
    let ghost rv = l.runs.deep_view();
    let mut acc: u128 = 0;
    let mut i: usize = 0;
    while i < l.runs.len()
        invariant
            i <= l.runs.len(),
            rv == l.runs.deep_view(),
            acc == runs_width(rv.take(i as int)),
            acc <= i * (usize::MAX as int),
        decreases l.runs.len() - i,
    {
        assert(rv.take(i + 1).drop_last() =~= rv.take(i as int));
        let x = text_columns(l.runs[i].text.as_str());
        assert(acc + x <= (i + 1) * (usize::MAX as int)) by (nonlinear_arith)
            requires
                acc <= i * (usize::MAX as int),
                x <= usize::MAX,
        ;
        assert((i + 1) * (usize::MAX as int) <= (usize::MAX as int) * (usize::MAX as int)) by (nonlinear_arith)
            requires
                i < usize::MAX,
        ;
        assert((usize::MAX as int) * (usize::MAX as int) < u128::MAX) by (nonlinear_arith);
        acc = acc + x as u128;
        i += 1;
    }
    assert(rv.take(i as int) =~= rv);
    acc
}

fn widest_line(lines: &Vec<MdLine>) -> (r: u128)
    ensures
        r == widest(lines.deep_view()),
{
    let ghost lv = lines.deep_view();
    let mut m: u128 = 0;
    let mut i: usize = 0;
    while i < lines.len()
        invariant
            i <= lines.len(),
            lv == lines.deep_view(),
            m == widest(lv.take(i as int)),
        decreases lines.len() - i,
    {
        assert(lv.take(i + 1).drop_last() =~= lv.take(i as int));
        let w = line_width(&lines[i]);
        if w > m {
            m = w;
        }
        i += 1;
    }
    assert(lv.take(i as int) =~= lv);
    m
}

/// Lays a table out in the given column widths (see `table_view`).
pub fn render_table_with(
    headers: &Vec<Vec<char>>,
    rows: &Vec<Vec<Vec<char>>>,
    col_widths: &Vec<usize>,
    hard_wrap: bool,
    max_width: usize,
) -> (r: Vec<MdLine>)
    requires
        forall|i: int| 0 <= i < col_widths.len() ==> col_widths[i] <= usize::MAX - 2,
    ensures
        r.deep_view() == table_view(vv(headers@), vvv(rows@), col_widths@, hard_wrap, max_width as nat),
{
    let ghost hv = vv(headers@);
    let ghost rv = vvv(rows@);
    let most = calc_max_row_lines(headers, rows, col_widths, hard_wrap);
    if most > 4 {
        return render_vertical_table(headers, rows, max_width);
    }
    let mut lines: Vec<MdLine> = Vec::new();
    push_line(&mut lines, render_hborder(col_widths, '┌', '┬', '┐', MdLook::TableBorder));
    append_lines(&mut lines, render_ml_row(headers, col_widths, MdLook::TableHeader, MdLook::TableBorder, hard_wrap));
    push_line(&mut lines, render_hborder(col_widths, '├', '┼', '┤', MdLook::TableBorder));
    let ghost head = lines.deep_view();
    let mut i: usize = 0;
    while i < rows.len()
        invariant
            i <= rows.len(),
            rv == vvv(rows@),
            lines.deep_view() == head + body_rows(rv.take(i as int), col_widths@, hard_wrap),
        decreases rows.len() - i,
    {
        assert(rv.take(i + 1).drop_last() =~= rv.take(i as int));
        assert(rv.take(i + 1).last() == vv(rows@[i as int]@));
        append_lines(&mut lines, render_ml_row(&rows[i], col_widths, MdLook::TableCell, MdLook::TableBorder, hard_wrap));
        i += 1;
        assert(lines.deep_view() =~= head + body_rows(rv.take(i as int), col_widths@, hard_wrap));
    }
    assert(rv.take(i as int) =~= rv);
    push_line(&mut lines, render_hborder(col_widths, '└', '┴', '┘', MdLook::TableBorder));
    assert(lines.deep_view() =~= grid_rows(hv, rv, col_widths@, hard_wrap));
    let w = widest_line(&lines);
    let limit: usize = if max_width > 4 {
        max_width - 4
    } else {
        0
    };
    if w > limit as u128 {
        return render_vertical_table(headers, rows, max_width);
    }
    lines
}

pub open spec fn max_len(rows: Seq<Seq<Seq<SpanView>>>) -> nat
    decreases rows.len(),
{
    if rows.len() == 0 {
        0
    } else {
        max3(max_len(rows.drop_last()), rows.last().len())
    }
}

/// The number of columns: the header's or the longest row's.
pub open spec fn column_count(headers: Seq<Seq<SpanView>>, rows: Seq<Seq<Seq<SpanView>>>) -> nat {
    max3(headers.len(), max_len(rows))
}

pub open spec fn padded_rows(rows: Seq<Seq<Seq<SpanView>>>, n: nat) -> Seq<Seq<Seq<char>>> {
    Seq::new(rows.len(), |i: int| padded_cells(rows[i], n))
}

/// A table block's column count and its cell texts, padded to that count.
pub fn table_cells(headers: &Vec<Vec<MdSpan>>, rows: &Vec<Vec<Vec<MdSpan>>>) -> (r: (usize, Vec<Vec<char>>, Vec<Vec<Vec<char>>>))
    ensures
        r.0 == column_count(headers.deep_view(), rows.deep_view()),
        vv(r.1@) == padded_cells(headers.deep_view(), r.0 as nat),
        vvv(r.2@) == padded_rows(rows.deep_view(), r.0 as nat),
{
    let ghost rv = rows.deep_view();
    let mut m: usize = 0;
    let mut i: usize = 0;
    while i < rows.len()
        invariant
            i <= rows.len(),
            rv == rows.deep_view(),
            m == max_len(rv.take(i as int)),
        decreases rows.len() - i,
    {
        assert(rv.take(i + 1).drop_last() =~= rv.take(i as int));
        if rows[i].len() > m {
            m = rows[i].len();
        }
        i += 1;
    }
    assert(rv.take(i as int) =~= rv);
    let n = if headers.len() > m {
        headers.len()
    } else {
        m
    };
    let htexts = pad_cell_texts(headers, n);
    let mut rtexts: Vec<Vec<Vec<char>>> = Vec::new();
    let mut k: usize = 0;
    while k < rows.len()
        invariant
            k <= rows.len(),
            rv == rows.deep_view(),
            vvv(rtexts@) == padded_rows(rv, n as nat).take(k as int),
        decreases rows.len() - k,
    {
        let ghost r0 = vvv(rtexts@);
        let p = pad_cell_texts(&rows[k], n);
        rtexts.push(p);
        assert(vvv(rtexts@) =~= r0.push(vv(p@)));
        k += 1;
        assert(vvv(rtexts@) =~= padded_rows(rv, n as nat).take(k as int));
    }
    assert(padded_rows(rv, n as nat).take(k as int) =~= padded_rows(rv, n as nat));
    (n, htexts, rtexts)
}

// ---------------------------------------------------------------------------
// Math.
// ---------------------------------------------------------------------------

pub open spec fn math_body(lines: Seq<Seq<char>>, max: nat) -> Seq<LineView> {
    Seq::new(
        lines.len(),
        |i: int| styled_row(seq!['│', ' '] + clipped(lines[i], sub0(max, 4)) + seq![' '], MdLook::Math),
    )
}

/// A display-math block: a frame titled "math", each line cut to fit.
pub open spec fn math_view(text: Seq<char>, max: nat) -> Seq<LineView> {
    seq![styled_row(seq!['┌', '─', ' ', 'm', 'a', 't', 'h', ' ', '─'], MdLook::CodeBorder)] + math_body(
        text_lines(text),
        max,
    ) + seq![styled_row(repeat_char('─', 8).insert(0, '└'), MdLook::CodeBorder)]
}

pub fn render_math_block(text: &str, max_width: usize) -> (r: Vec<MdLine>)
    ensures
        r.deep_view() == math_view(text@, max_width as nat),
{
    let mut lines: Vec<MdLine> = Vec::new();
    let mut top: Vec<char> = Vec::new();
    top.push('┌');
    top.push('─');
    top.push(' ');
    top.push('m');
    top.push('a');
    top.push('t');
    top.push('h');
    top.push(' ');
    top.push('─');
    assert(top@ =~= seq!['┌', '─', ' ', 'm', 'a', 't', 'h', ' ', '─']);
    push_line(&mut lines, styled_line(top, MdLook::CodeBorder));
    let ghost head = lines.deep_view();
    let ls = lines_of(text);
    let ghost lv = vv(ls@);
    let room: usize = if max_width > 4 {
        max_width - 4
    } else {
        0
    };
    let mut i: usize = 0;
    while i < ls.len()
        invariant
            i <= ls.len(),
            lv == vv(ls@),
            room as nat == sub0(max_width as nat, 4),
            lines.deep_view() == head + math_body(lv, max_width as nat).take(i as int),
        decreases ls.len() - i,
    {
        let visible = chars_of(truncate_str(string_of(&ls[i]).as_str(), room).as_str());
        let mut padded: Vec<char> = Vec::new();
        padded.push('│');
        padded.push(' ');
        extend_chars(&mut padded, &visible);
        padded.push(' ');
        assert(padded@ =~= seq!['│', ' '] + clipped(lv[i as int], sub0(max_width as nat, 4)) + seq![' ']);
        push_line(&mut lines, styled_line(padded, MdLook::Math));
        i += 1;
        assert(lines.deep_view() =~= head + math_body(lv, max_width as nat).take(i as int));
    }
    assert(math_body(lv, max_width as nat).take(i as int) =~= math_body(lv, max_width as nat));
    let mut bottom = repeated('─', 8);
    bottom.insert(0, '└');
    push_line(&mut lines, styled_line(bottom, MdLook::CodeBorder));
    lines
}

// ---------------------------------------------------------------------------
// Blocks to rows.
// ---------------------------------------------------------------------------

pub open spec fn table_count(bs: Seq<BlockView>) -> nat
    decreases bs.len(),
{
    if bs.len() == 0 {
        0
    } else {
        table_count(bs.drop_last()) + if bs.last() is Table {
            1nat
        } else {
            0nat
        }
    }
}

pub open spec fn list_depths_ok(bs: Seq<BlockView>) -> bool {
    forall|i: int|
        0 <= i < bs.len() ==> (#[trigger] bs[i] matches BlockView::ListItem { depth, .. } ==> depth
            <= usize::MAX / 2)
}

pub open spec fn plain_prefix() -> Prefix {
    Prefix { text: seq![], width: text_width(seq![]) as nat, look: MdLook::Plain }
}

pub open spec fn quote_prefix() -> Prefix {
    Prefix { text: seq!['│', ' '], width: text_width(seq!['│', ' ']) as nat, look: MdLook::Quote }
}

pub open spec fn list_item_prefix(marker: ListMarker, depth: nat) -> Prefix {
    let p = list_prefix_of(marker, depth);
    Prefix { text: p, width: text_width(p) as nat, look: MdLook::ListMarker }
}

/// A block's rows: wrapped text, a framed code or math block, a table, or a
/// rule; a blank row follows every block but a list item.
pub open spec fn block_rows(b: BlockView, usable: nat, table: Seq<LineView>) -> Seq<LineView> {
    match b {
        BlockView::Heading { spans, .. } => wrapped_spans(spans, plain_prefix(), usable) + seq![blank_row()],
        BlockView::Paragraph { spans } => wrapped_spans(spans, plain_prefix(), usable) + seq![blank_row()],
        BlockView::CodeBlock { lang, text } => code_block_rows(lang, text, usable, code_highlight(lang, text))
            + seq![blank_row()],
        BlockView::Blockquote { spans } => wrapped_spans(spans, quote_prefix(), usable) + seq![blank_row()],
        BlockView::ListItem { depth, marker, spans } => wrapped_spans(
            spans,
            list_item_prefix(marker, depth),
            usable,
        ),
        BlockView::Table { .. } => table + seq![blank_row()],
        BlockView::Math { text, .. } => math_view(text, usable) + seq![blank_row()],
        BlockView::Rule => seq![
            styled_row(repeat_char('─', if usable < 40 { usable } else { 40 }), MdLook::Border),
            blank_row(),
        ],
    }
}

pub open spec fn blocks_rows(bs: Seq<BlockView>, usable: nat, tables: Seq<Seq<LineView>>) -> Seq<LineView>
    decreases bs.len(),
{
    if bs.len() == 0 {
        seq![]
    } else {
        blocks_rows(bs.drop_last(), usable, tables) + block_rows(
            bs.last(),
            usable,
            tables[table_count(bs.drop_last()) as int],
        )
    }
}

/// A message's rows from its blocks, at the width (20 columns at least);
/// the k-th table takes the k-th of the tables laid out beforehand.
pub open spec fn blocks_view(bs: Seq<BlockView>, width: nat, tables: Seq<Seq<LineView>>) -> Seq<LineView> {
    blocks_rows(bs, if width < 20 { 20 } else { width }, tables)
}

fn block_lines(b: &MdBlock, usable: usize, table: Vec<MdLine>) -> (r: Vec<MdLine>)
    requires
        b.deep_view() matches BlockView::ListItem { depth, .. } ==> depth <= usize::MAX / 2,
    ensures
        r.deep_view() == block_rows(b.deep_view(), usable as nat, table.deep_view()),
{
    let mut out: Vec<MdLine>;
    let mut blank = true;
    match b {
        MdBlock::Heading { spans, .. } => {
            let empty: Vec<char> = Vec::new();
            out = wrap_spans_with_custom_prefix(spans, &empty, text_columns(""), MdLook::Plain, usable);
            proof {
                assert(""@ =~= Seq::<char>::empty()) by {
                    reveal_strlit("");
                }
            }
        },
        MdBlock::Paragraph { spans } => {
            let empty: Vec<char> = Vec::new();
            out = wrap_spans_with_custom_prefix(spans, &empty, text_columns(""), MdLook::Plain, usable);
            proof {
                assert(""@ =~= Seq::<char>::empty()) by {
                    reveal_strlit("");
                }
            }
        },
        MdBlock::CodeBlock { lang, text } => {
            out = render_code_block(lang, text.as_str(), usable);
        },
        MdBlock::Blockquote { spans } => {
            let mut bar: Vec<char> = Vec::new();
            bar.push('│');
            bar.push(' ');
            let w = text_columns(string_of(&bar).as_str());
            assert(bar@ =~= seq!['│', ' ']);
            out = wrap_spans_with_custom_prefix(spans, &bar, w, MdLook::Quote, usable);
        },
        MdBlock::ListItem { depth, marker, spans } => {
            let p = list_prefix(*marker, *depth);
            let w = text_columns(string_of(&p).as_str());
            out = wrap_spans_with_custom_prefix(spans, &p, w, MdLook::ListMarker, usable);
            blank = false;
        },
        MdBlock::Table { .. } => {
            out = table;
        },
        MdBlock::Math { text, .. } => {
            out = render_math_block(text.as_str(), usable);
        },
        MdBlock::Rule => {
            let rule = repeated('─', if usable < 40 { usable } else { 40 });
            out = Vec::new();
            push_line(&mut out, styled_line(rule, MdLook::Border));
            assert(out.deep_view() =~= seq![
                styled_row(repeat_char('─', if usable < 40 { usable as nat } else { 40 }), MdLook::Border),
            ]);
        },
    }
    if blank {
        push_line(&mut out, blank_line());
    }
    out
}

/// Lays blocks out as rows at the terminal width.
pub fn blocks_to_lines(blocks: &Vec<MdBlock>, width: u16, tables: Vec<Vec<MdLine>>) -> (r: Vec<MdLine>)
    requires
        tables.len() >= table_count(blocks.deep_view()),
        list_depths_ok(blocks.deep_view()),
    ensures
        r.deep_view() == blocks_view(blocks.deep_view(), width as nat, tables.deep_view()),
{
    let usable: usize = if width < 20 {
        20
    } else {
        width as usize
    };
    let ghost bv = blocks.deep_view();
    let ghost tv = tables.deep_view();
    let mut tables = tables;
    let mut out: Vec<MdLine> = Vec::new();
    let mut k: usize = 0;
    let mut i: usize = 0;
    while i < blocks.len()
        invariant
            i <= blocks.len(),
            bv == blocks.deep_view(),
            k == table_count(bv.take(i as int)),
            k <= table_count(bv),
            tv.len() >= table_count(bv),
            tv.len() <= usize::MAX,
            tables.deep_view() == tv.skip(k as int),
            list_depths_ok(bv),
            out.deep_view() == blocks_rows(bv.take(i as int), usable as nat, tv),
        decreases blocks.len() - i,
    {
        assert(bv.take(i + 1).drop_last() =~= bv.take(i as int));
        assert(bv.take(i + 1).last() == bv[i as int]);
        proof {
            lemma_table_count_prefix(bv, i + 1);
        }
        let b = &blocks[i];
        let is_table = match b {
            MdBlock::Table { .. } => true,
            _ => false,
        };
        assert(is_table == (bv[i as int] is Table));
        assert(tables.deep_view().len() == tables.len());
        let table: Vec<MdLine> = if is_table {
            assert(table_count(bv.take(i + 1)) == k + 1);
            assert(tables.len() > 0);
            let ghost before = tables@;
            let ghost bd = tables.deep_view();
            let t = tables.remove(0);
            assert(t == before[0]);
            assert(bd[0] == before[0].deep_view());
            assert(t.deep_view() == tv[k as int]);
            assert forall|j: int| 0 <= j < tables.len() implies tables.deep_view()[j] == tv.skip(k + 1)[j] by {
                assert(tables@[j] == before[j + 1]);
                assert(bd[j + 1] == before[j + 1].deep_view());
            }
            assert(tables.deep_view() =~= tv.skip(k + 1));
            t
        } else {
            Vec::new()
        };
        let ghost tab = table.deep_view();
        assert(bv[i as int] is Table ==> tab == tv[k as int]);
        let rows = block_lines(b, usable, table);
        append_lines(&mut out, rows);
        if is_table {
            k += 1;
        }
        i += 1;
    }
    assert(bv.take(i as int) =~= bv);
    out
}

pub proof fn lemma_table_count_prefix(bs: Seq<BlockView>, n: int)
    requires
        0 <= n <= bs.len(),
    ensures
        table_count(bs.take(n)) <= table_count(bs),
    decreases bs.len(),
{
    if n < bs.len() {
        assert(bs.drop_last().take(n) =~= bs.take(n));
        lemma_table_count_prefix(bs.drop_last(), n);
    } else {
        assert(bs.take(n) =~= bs);
    }
}

/// Whether every list item's nesting leaves room for its indent.
pub fn list_depths_fit(blocks: &Vec<MdBlock>) -> (r: bool)
    ensures
        r == list_depths_ok(blocks.deep_view()),
{
    let ghost bv = blocks.deep_view();
    let mut i: usize = 0;
    while i < blocks.len()
        invariant
            i <= blocks.len(),
            bv == blocks.deep_view(),
            forall|k: int|
                0 <= k < i ==> (#[trigger] bv[k] matches BlockView::ListItem { depth, .. } ==> depth
                    <= usize::MAX / 2),
        decreases blocks.len() - i,
    {
        match &blocks[i] {
            MdBlock::ListItem { depth, .. } => {
                if *depth > usize::MAX / 2 {
                    assert(!(bv[i as int] matches BlockView::ListItem { depth, .. } ==> depth <= usize::MAX / 2));
                    return false;
                }
            },
            _ => {},
        }
        i += 1;
    }
    true
}

// ---------------------------------------------------------------------------
// A message's markdown, tables included.
// ---------------------------------------------------------------------------

/// The tables among blocks, in order: their header and body cells.
pub open spec fn tables_in(bs: Seq<BlockView>) -> Seq<(Seq<Seq<SpanView>>, Seq<Seq<Seq<SpanView>>>)>
    decreases bs.len(),
{
    if bs.len() == 0 {
        seq![]
    } else {
        tables_in(bs.drop_last()) + match bs.last() {
            BlockView::Table { headers, rows } => seq![(headers, rows)],
            _ => seq![],
        }
    }
}

proof fn lemma_tables_in_count(bs: Seq<BlockView>)
    ensures
        tables_in(bs).len() == table_count(bs),
    decreases bs.len(),
{
    if bs.len() > 0 {
        lemma_tables_in_count(bs.drop_last());
    }
}

/// Widths cut to what a row can hold around them.
pub open spec fn capped_widths(w: Seq<nat>) -> Seq<usize> {
    Seq::new(w.len(), |i: int| (if w[i] > usize::MAX - 2 { (usize::MAX - 2) as nat } else { w[i] }) as usize)
}

/// The plan of a table's columns, as `table_widths` makes it.
pub open spec fn table_plan(headers: Seq<Seq<SpanView>>, rows: Seq<Seq<Seq<SpanView>>>, max: nat) -> WidthsPlan {
    let n = column_count(headers, rows);
    widths_plan(table_rows(padded_cells(headers, n), padded_rows(rows, n)), n, max)
}

/// A table's rows: one empty row for a table without columns; else the
/// cells laid out in the planned widths when they fit, or in the `scaled`
/// widths (with words broken) when even the least widths do not fit.
pub open spec fn md_table_view(
    headers: Seq<Seq<SpanView>>,
    rows: Seq<Seq<Seq<SpanView>>>,
    scaled: Seq<usize>,
    max: nat,
) -> Seq<LineView> {
    let n = column_count(headers, rows);
    if n == 0 {
        seq![LineView { runs: seq![], look: MdLook::Plain }]
    } else {
        let hs = padded_cells(headers, n);
        let rs = padded_rows(rows, n);
        match table_plan(headers, rows, max) {
            WidthsPlan::Fitted(w) => table_view(hs, rs, capped_widths(w), false, max),
            WidthsPlan::Scale(_, _) => table_view(hs, rs, capped_widths(nats(scaled)), true, max),
        }
    }
}

/// A message's markdown as rows at the width: plain text when its sample
/// holds no markdown syntax (or its lists nest deeper than a row can show);
/// else its blocks, the `i`-th table laid out as `md_table_view` says with
/// `scaled[i]` (none when missing) as the widths it is scaled to.
pub open spec fn markdown_view(content: Seq<char>, width: u16, scaled: Seq<Seq<usize>>) -> Seq<LineView> {
    let bs = crate::markdown::blocks_of(crate::markdown::md_events(content));
    if !crate::mdrender::looks_like_markdown(crate::mdrender::md_sample(content)) || !list_depths_ok(bs) {
        crate::mdrender::plain_text_view(content, width as nat)
    } else {
        let ts = tables_in(bs);
        let usable: nat = if width < 20 { 20 } else { width as nat };
        blocks_view(
            bs,
            width as nat,
            Seq::new(
                ts.len(),
                |i: int| md_table_view(ts[i].0, ts[i].1, if i < scaled.len() { scaled[i] } else { seq![] }, usable),
            ),
        )
    }
}

fn capped(w: &Vec<usize>) -> (r: Vec<usize>)
    ensures
        r@ == capped_widths(nats(w@)),
        forall|i: int| 0 <= i < r@.len() ==> r@[i] <= usize::MAX - 2,
{
    let mut r: Vec<usize> = Vec::new();
    for i in 0..w.len()
        invariant
            r@ == capped_widths(nats(w@)).take(i as int),
    {
        let x = if w[i] > usize::MAX - 2 { usize::MAX - 2 } else { w[i] };
        r.push(x);
        assert(r@ =~= capped_widths(nats(w@)).take(i + 1));
    }
    assert(capped_widths(nats(w@)).take(w.len() as int) =~= capped_widths(nats(w@)));
    r
}

/// A table's rows (see `md_table_view`).
pub fn render_md_table(headers: &Vec<Vec<MdSpan>>, rows: &Vec<Vec<Vec<MdSpan>>>, scaled: &Vec<usize>, max_width: usize) -> (r: Vec<MdLine>)
    ensures
        r.deep_view() == md_table_view(headers.deep_view(), rows.deep_view(), scaled@, max_width as nat),
{
    let (n, hs, rs) = table_cells(headers, rows);
    if n == 0 {
        let line = MdLine { runs: Vec::new(), look: MdLook::Plain };
        assert(line.runs.deep_view() =~= Seq::<(Seq<char>, MdLook)>::empty());
        let mut out: Vec<MdLine> = Vec::new();
        out.push(line);
        assert(out.deep_view() =~= seq![LineView { runs: seq![], look: MdLook::Plain }]);
        return out;
    }
    match table_widths(&hs, &rs, n, max_width) {
        TableWidths::Fitted(w) => {
            let c = capped(&w);
            render_table_with(&hs, &rs, &c, false, max_width)
        },
        TableWidths::Scale { .. } => {
            let c = capped(scaled);
            render_table_with(&hs, &rs, &c, true, max_width)
        },
    }
}

/// The column plans of a message's tables, in order (see `table_plan`): a
/// table whose plan is to scale needs its widths from the caller.
pub fn markdown_table_plans(content: &str, width: u16) -> (r: Vec<TableWidths>)
    ensures
        ({
            let ts = tables_in(crate::markdown::blocks_of(crate::markdown::md_events(content@)));
            let usable: nat = if width < 20 { 20 } else { width as nat };
            &&& r@.len() == ts.len()
            &&& forall|i: int| 0 <= i < ts.len() ==> plan_view(#[trigger] r@[i]) == table_plan(ts[i].0, ts[i].1, usable)
        }),
{
    let blocks = crate::markdown::parse_blocks(content);
    let ghost bv = blocks.deep_view();
    let usable: usize = if width < 20 { 20 } else { width as usize };
    let mut r: Vec<TableWidths> = Vec::new();
    for i in 0..blocks.len()
        invariant
            bv == blocks.deep_view(),
            r@.len() == tables_in(bv.take(i as int)).len(),
            forall|k: int|
                0 <= k < r@.len() ==> plan_view(#[trigger] r@[k]) == table_plan(
                    tables_in(bv.take(i as int))[k].0,
                    tables_in(bv.take(i as int))[k].1,
                    usable as nat,
                ),
    {
        assert(bv.take(i + 1).drop_last() =~= bv.take(i as int));
        let ghost before = tables_in(bv.take(i as int));
        match &blocks[i] {
            MdBlock::Table { headers, rows } => {
                let (n, hs, rs) = table_cells(headers, rows);
                let plan = table_widths(&hs, &rs, n, usable);
                r.push(plan);
                let ghost now = tables_in(bv.take(i + 1));
                assert(now =~= before.push((headers.deep_view(), rows.deep_view())));
                assert forall|k: int| 0 <= k < r@.len() implies plan_view(#[trigger] r@[k]) == table_plan(now[k].0, now[k].1, usable as nat) by {
                    if k < before.len() {
                        assert(now[k] == before[k]);
                    }
                }
            },
            _ => {
                assert(tables_in(bv.take(i + 1)) =~= before);
            },
        }
    }
    assert(bv.take(blocks.len() as int) =~= bv);
    r
}

/// A message's markdown as rows (see `markdown_view`); `scaled[i]` gives
/// the widths of the `i`-th table when its plan is to scale.
pub fn render_markdown(content: &str, width: u16, scaled: &Vec<Vec<usize>>) -> (r: Vec<MdLine>)
    ensures
        r.deep_view() == markdown_view(content@, width, scaled.deep_view()),
{
    if !crate::mdrender::has_markdown_syntax(content) {
        return crate::mdrender::render_plain_text(content, width);
    }
    let blocks = crate::markdown::parse_blocks(content);
    if !list_depths_fit(&blocks) {
        return crate::mdrender::render_plain_text(content, width);
    }
    let ghost bv = blocks.deep_view();
    let usable: usize = if width < 20 { 20 } else { width as usize };
    let ghost sv = scaled.deep_view();
    let mut tables: Vec<Vec<MdLine>> = Vec::new();
    for i in 0..blocks.len()
        invariant
            bv == blocks.deep_view(),
            sv == scaled.deep_view(),
            tables@.len() == tables_in(bv.take(i as int)).len(),
            forall|k: int|
                0 <= k < tables@.len() ==> #[trigger] tables@[k].deep_view() == md_table_view(
                    tables_in(bv.take(i as int))[k].0,
                    tables_in(bv.take(i as int))[k].1,
                    if k < sv.len() { sv[k] } else { seq![] },
                    usable as nat,
                ),
    {
        assert(bv.take(i + 1).drop_last() =~= bv.take(i as int));
        let ghost before = tables_in(bv.take(i as int));
        match &blocks[i] {
            MdBlock::Table { headers, rows } => {
                let k = tables.len();
                let empty: Vec<usize> = Vec::new();
                let given: &Vec<usize> = if k < scaled.len() { &scaled[k] } else { &empty };
                proof {
                    if k < scaled.len() {
                        assert(sv[k as int] =~= scaled@[k as int]@);
                    }
                }
                assert(given@ == (if (k as int) < sv.len() { sv[k as int] } else { Seq::<usize>::empty() }));
                let t = render_md_table(headers, rows, given, usable);
                let ghost td = t.deep_view();
                tables.push(t);
                assert(tables@[k as int].deep_view() == td);
                let ghost now = tables_in(bv.take(i + 1));
                assert(now =~= before.push((headers.deep_view(), rows.deep_view())));
                assert forall|j: int| 0 <= j < tables@.len() implies #[trigger] tables@[j].deep_view() == md_table_view(
                    now[j].0,
                    now[j].1,
                    if j < sv.len() { sv[j] } else { seq![] },
                    usable as nat,
                ) by {
                    if j < before.len() {
                        assert(now[j] == before[j]);
                    }
                }
            },
            _ => {
                assert(tables_in(bv.take(i + 1)) =~= before);
            },
        }
    }
    assert(bv.take(blocks.len() as int) =~= bv);
    proof {
        lemma_tables_in_count(bv);
    }
    let ghost tv = tables.deep_view();
    let ghost ts = tables_in(bv);
    assert(tv =~= Seq::new(
        ts.len(),
        |i: int| md_table_view(ts[i].0, ts[i].1, if i < sv.len() { sv[i] } else { seq![] }, usable as nat),
    ));
    blocks_to_lines(&blocks, width, tables)
}

// ---------------------------------------------------------------------------
// Laws of column sizing.
// ---------------------------------------------------------------------------

/// The least widths of a table's columns.
pub open spec fn col_mins(rows: Seq<Seq<Seq<char>>>, n: nat) -> Seq<nat> {
    Seq::new(n, |ci: int| col_min_of(rows, ci))
}

/// The ideal widths of a table's columns.
pub open spec fn col_ideals(rows: Seq<Seq<Seq<char>>>, n: nat) -> Seq<nat> {
    Seq::new(n, |ci: int| col_ideal_of(rows, ci))
}

proof fn lemma_total_pointwise_le(a: Seq<nat>, b: Seq<nat>)
    requires
        a.len() == b.len(),
        forall|i: int| 0 <= i < a.len() ==> a[i] <= b[i],
    ensures
        total(a) <= total(b),
    decreases a.len(),
{
    if a.len() > 0 {
        lemma_total_pointwise_le(a.drop_last(), b.drop_last());
    }
}

proof fn lemma_total_sum(a: Seq<nat>, b: Seq<nat>, c: Seq<nat>)
    requires
        a.len() == b.len() && b.len() == c.len(),
        forall|i: int| 0 <= i < a.len() ==> c[i] == a[i] + b[i],
    ensures
        total(c) == total(a) + total(b),
    decreases a.len(),
{
    if a.len() > 0 {
        lemma_total_sum(a.drop_last(), b.drop_last(), c.drop_last());
    }
}

proof fn lemma_shares(over: Seq<nat>, q: Seq<nat>, extra: nat, tot: nat)
    requires
        tot > 0,
        over.len() == q.len(),
        forall|i: int| 0 <= i < q.len() ==> q[i] == over[i] * extra / tot,
    ensures
        total(q) * tot <= total(over) * extra,
    decreases q.len(),
{
    if q.len() > 0 {
        lemma_shares(over.drop_last(), q.drop_last(), extra, tot);
        let a = over.last();
        let ql = q.last();
        assert(ql == a * extra / tot);
        assert(ql * tot <= a * extra) by (nonlinear_arith)
            requires
                ql == a * extra / tot,
                tot > 0,
        ;
        let tq = total(q.drop_last());
        let to = total(over.drop_last());
        assert((tq + ql) * tot <= (to + a) * extra) by (nonlinear_arith)
            requires
                tq * tot <= to * extra,
                ql * tot <= a * extra,
        ;
        assert(total(q) == tq + ql);
        assert(total(over) == to + a);
    } else {
        assert(total(q) == 0 && total(over) == 0);
        assert(0 * tot <= 0 * extra) by (nonlinear_arith);
    }
}

/// Law: sized columns never take more room than the table has: the ideal
/// widths where they fit; else each column between its least and its ideal
/// width, the spare room shared out without going over. Where even the least
/// widths do not fit, they are handed on to be scaled.
pub proof fn law_table_widths_fit(rows: Seq<Seq<Seq<char>>>, n: nat, max: nat)
    ensures
        widths_plan(rows, n, max) matches WidthsPlan::Fitted(w) ==> w.len() == n && total(w)
            <= available_width(n, max),
        ({
            let mins = col_mins(rows, n);
            let ideals = col_ideals(rows, n);
            let avail = available_width(n, max);
            total(ideals) > avail && total(mins) <= avail ==> (widths_plan(rows, n, max) matches WidthsPlan::Fitted(w)
                && forall|i: int|
                0 <= i < n ==> mins[i] <= #[trigger] w[i] && w[i] <= max3(mins[i], ideals[i]))
        }),
        widths_plan(rows, n, max) matches WidthsPlan::Scale(m, a) ==> m == col_mins(rows, n) && a
            == available_width(n, max) && total(m) > a,
{
    let mins = col_mins(rows, n);
    let ideals = col_ideals(rows, n);
    let avail = available_width(n, max);
    assert(mins =~= Seq::new(n, |ci: int| col_min_of(rows, ci)));
    assert(ideals =~= Seq::new(n, |ci: int| col_ideal_of(rows, ci)));
    if total(ideals) > avail && total(mins) <= avail {
        let extra = (avail - total(mins)) as nat;
        let over = Seq::new(mins.len(), |i: int| sub0(ideals[i], mins[i]));
        let tot = total(over);
        let w = shrunk(mins, ideals, extra);
        let sum = Seq::new(n, |i: int| over[i] + mins[i]);
        lemma_total_sum(over, mins, sum);
        lemma_total_pointwise_le(ideals, sum);
        assert(tot > extra);
        let q = Seq::new(n, |i: int| over[i] * extra / tot);
        lemma_shares(over, q, extra, tot);
        assert(total(q) <= extra) by (nonlinear_arith)
            requires
                total(q) * tot <= tot * extra,
                tot > 0,
        ;
        lemma_total_sum(mins, q, w);
        assert forall|i: int| 0 <= i < n implies mins[i] <= #[trigger] w[i] && w[i] <= max3(mins[i], ideals[i]) by {
            let a = over[i];
            assert(a * extra / tot <= a) by (nonlinear_arith)
                requires
                    extra < tot,
                    tot > 0,
            ;
        }
    }
}

} // verus!
