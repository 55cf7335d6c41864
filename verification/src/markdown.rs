//! Markdown in the transcript: the parser's event stream, the blocks this
//! client groups it into, and the plain-text helpers of the renderer.

use crate::agent::copy_opt_text;
use crate::session::opt_view;
use pulldown_cmark::{CodeBlockKind, Event, Options, Parser, Tag, TagEnd};
use crate::text::{extend_str, string_of};
use vstd::prelude::*;

verus! {

// ---------------------------------------------------------------------------
// The parser's events.
// ---------------------------------------------------------------------------

/// A tag that opens a block or an inline run.
#[derive(Debug)]
pub enum MdStart {
    Heading(u8),
    /// A code block: the info string of a fenced block, none when indented.
    CodeBlock(Option<String>),
    BlockQuote,
    /// A list: the first number of an ordered list, none for bullets.
    List(Option<u64>),
    Item,
    Table,
    TableHead,
    TableRow,
    TableCell,
    Emphasis,
    Strong,
    Strikethrough,
    /// A link and its destination.
    Link(String),
    Other,
}

/// A tag that closes a block or an inline run.
#[derive(Clone, Copy, Debug, PartialEq, Eq, Structural)]
pub enum MdEnd {
    Heading,
    Paragraph,
    CodeBlock,
    BlockQuote,
    List,
    Item,
    Table,
    TableHead,
    TableRow,
    TableCell,
    Emphasis,
    Strong,
    Strikethrough,
    Link,
    Other,
}

/// One event of the markdown parser.
#[derive(Debug)]
pub enum MdEvent {
    Start(MdStart),
    End(MdEnd),
    Text(String),
    Code(String),
    InlineMath(String),
    DisplayMath(String),
    SoftBreak,
    HardBreak,
    Rule,
    TaskListMarker(bool),
    Other,
}

pub enum MdStartView {
    Heading(u8),
    CodeBlock(Option<Seq<char>>),
    BlockQuote,
    List(Option<u64>),
    Item,
    Table,
    TableHead,
    TableRow,
    TableCell,
    Emphasis,
    Strong,
    Strikethrough,
    Link(Seq<char>),
    Other,
}

pub enum MdEventView {
    Start(MdStartView),
    End(MdEnd),
    Text(Seq<char>),
    Code(Seq<char>),
    InlineMath(Seq<char>),
    DisplayMath(Seq<char>),
    SoftBreak,
    HardBreak,
    Rule,
    TaskListMarker(bool),
    Other,
}

pub open spec fn start_view(t: MdStart) -> MdStartView {
    match t {
        MdStart::Heading(l) => MdStartView::Heading(l),
        MdStart::CodeBlock(lang) => MdStartView::CodeBlock(opt_view(lang)),
        MdStart::BlockQuote => MdStartView::BlockQuote,
        MdStart::List(n) => MdStartView::List(n),
        MdStart::Item => MdStartView::Item,
        MdStart::Table => MdStartView::Table,
        MdStart::TableHead => MdStartView::TableHead,
        MdStart::TableRow => MdStartView::TableRow,
        MdStart::TableCell => MdStartView::TableCell,
        MdStart::Emphasis => MdStartView::Emphasis,
        MdStart::Strong => MdStartView::Strong,
        MdStart::Strikethrough => MdStartView::Strikethrough,
        MdStart::Link(u) => MdStartView::Link(u@),
        MdStart::Other => MdStartView::Other,
    }
}

pub open spec fn event_view(e: MdEvent) -> MdEventView {
    match e {
        MdEvent::Start(t) => MdEventView::Start(start_view(t)),
        MdEvent::End(t) => MdEventView::End(t),
        MdEvent::Text(s) => MdEventView::Text(s@),
        MdEvent::Code(s) => MdEventView::Code(s@),
        MdEvent::InlineMath(s) => MdEventView::InlineMath(s@),
        MdEvent::DisplayMath(s) => MdEventView::DisplayMath(s@),
        MdEvent::SoftBreak => MdEventView::SoftBreak,
        MdEvent::HardBreak => MdEventView::HardBreak,
        MdEvent::Rule => MdEventView::Rule,
        MdEvent::TaskListMarker(b) => MdEventView::TaskListMarker(b),
        MdEvent::Other => MdEventView::Other,
    }
}

pub open spec fn events_view(v: Seq<MdEvent>) -> Seq<MdEventView> {
    Seq::new(v.len(), |i: int| event_view(v[i]))
}

#[verifier::external_type_specification]
#[verifier::external_body]
pub struct ExEvent<'a>(pulldown_cmark::Event<'a>);

#[verifier::external_type_specification]
#[verifier::external_body]
pub struct ExTag<'a>(pulldown_cmark::Tag<'a>);

#[verifier::external_type_specification]
#[verifier::external_body]
pub struct ExTagEnd(pulldown_cmark::TagEnd);

#[verifier::external_type_specification]
#[verifier::external_body]
pub struct ExCodeBlockKind<'a>(pulldown_cmark::CodeBlockKind<'a>);

/// The events pulldown-cmark reports for a text, with tables, footnotes,
/// strikethrough, task lists and math enabled.
pub uninterp spec fn md_events(content: Seq<char>) -> Seq<MdEventView>;

/// pulldown-cmark `Parser::new_ext` with tables, footnotes, strikethrough,
/// task lists and math: its events, converted one for one.
#[verifier::external_body]
fn markdown_events(content: &str) -> (r: Vec<MdEvent>)
    ensures
        events_view(r@) == md_events(content@),
{
    let options = Options::ENABLE_TABLES | Options::ENABLE_FOOTNOTES | Options::ENABLE_STRIKETHROUGH
        | Options::ENABLE_TASKLISTS | Options::ENABLE_MATH;
    let mut events = Vec::new();
    for event in Parser::new_ext(content, options) {
        events.push(event_of(event));
    }
    events
}

/// Converts a pulldown-cmark event, variant for variant.
#[verifier::external_body]
fn event_of(e: Event) -> MdEvent {
    match e {
        Event::Start(t) => MdEvent::Start(start_of(t)),
        Event::End(t) => MdEvent::End(end_of(t)),
        Event::Text(s) => MdEvent::Text(s.to_string()),
        Event::Code(s) => MdEvent::Code(s.to_string()),
        Event::InlineMath(s) => MdEvent::InlineMath(s.to_string()),
        Event::DisplayMath(s) => MdEvent::DisplayMath(s.to_string()),
        Event::SoftBreak => MdEvent::SoftBreak,
        Event::HardBreak => MdEvent::HardBreak,
        Event::Rule => MdEvent::Rule,
        Event::TaskListMarker(b) => MdEvent::TaskListMarker(b),
        _ => MdEvent::Other,
    }
}

/// Converts a pulldown-cmark opening tag, variant for variant.
#[verifier::external_body]
fn start_of(t: Tag) -> MdStart {
    match t {
        Tag::Heading { level, .. } => MdStart::Heading(level as u8),
        Tag::CodeBlock(kind) => MdStart::CodeBlock(fence_of(kind)),
        Tag::BlockQuote(_) => MdStart::BlockQuote,
        Tag::List(first) => MdStart::List(first),
        Tag::Item => MdStart::Item,
        Tag::Table(_) => MdStart::Table, Tag::TableHead => MdStart::TableHead,
        Tag::TableRow => MdStart::TableRow, Tag::TableCell => MdStart::TableCell,
        Tag::Emphasis => MdStart::Emphasis, Tag::Strong => MdStart::Strong,
        Tag::Strikethrough => MdStart::Strikethrough,
        Tag::Link { dest_url, .. } => MdStart::Link(dest_url.to_string()),
        _ => MdStart::Other,
    }
}

/// The info string of a fenced code block; none for an indented one.
#[verifier::external_body]
fn fence_of(kind: CodeBlockKind) -> Option<String> {
    match kind {
        CodeBlockKind::Fenced(info) => Some(info.to_string()),
        CodeBlockKind::Indented => None,
    }
}

/// Converts a pulldown-cmark closing tag, variant for variant.
#[verifier::external_body]
fn end_of(t: TagEnd) -> MdEnd {
    match t {
        TagEnd::Heading(_) => MdEnd::Heading,
        TagEnd::Paragraph => MdEnd::Paragraph,
        TagEnd::CodeBlock => MdEnd::CodeBlock,
        TagEnd::BlockQuote(_) => MdEnd::BlockQuote,
        TagEnd::List(_) => MdEnd::List,
        TagEnd::Item => MdEnd::Item,
        TagEnd::Table => MdEnd::Table, TagEnd::TableHead => MdEnd::TableHead,
        TagEnd::TableRow => MdEnd::TableRow, TagEnd::TableCell => MdEnd::TableCell,
        TagEnd::Emphasis => MdEnd::Emphasis, TagEnd::Strong => MdEnd::Strong,
        TagEnd::Strikethrough => MdEnd::Strikethrough,
        TagEnd::Link => MdEnd::Link,
        _ => MdEnd::Other,
    }
}

// ---------------------------------------------------------------------------
// Blocks.
// ---------------------------------------------------------------------------

/// A run of inline text and the styles in force over it.
#[derive(Debug)]
pub struct MdSpan {
    pub text: String,
    pub bold: bool,
    pub italic: bool,
    pub strikethrough: bool,
    pub code: bool,
    pub link_url: Option<String>,
}

pub struct SpanView {
    pub text: Seq<char>,
    pub bold: bool,
    pub italic: bool,
    pub strikethrough: bool,
    pub code: bool,
    pub link_url: Option<Seq<char>>,
}

impl DeepView for MdSpan {
    type V = SpanView;

    open spec fn deep_view(&self) -> SpanView {
        SpanView {
            text: self.text@,
            bold: self.bold,
            italic: self.italic,
            strikethrough: self.strikethrough,
            code: self.code,
            link_url: opt_view(self.link_url),
        }
    }
}

/// The marker a list item is drawn with.
#[derive(Clone, Copy, Debug, PartialEq, Eq, Structural)]
pub enum ListMarker {
    Bullet,
    Numbered(u64),
    Task { checked: bool },
}

/// A block of the transcript's markdown.
#[derive(Debug)]
pub enum MdBlock {
    Heading { level: u8, spans: Vec<MdSpan> },
    Paragraph { spans: Vec<MdSpan> },
    CodeBlock { lang: Option<String>, text: String },
    Blockquote { spans: Vec<MdSpan> },
    /// A list item, with the number of lists it is nested in.
    ListItem { depth: usize, marker: ListMarker, spans: Vec<MdSpan> },
    Table { headers: Vec<Vec<MdSpan>>, rows: Vec<Vec<Vec<MdSpan>>> },
    Math { display: bool, text: String },
    Rule,
}

pub enum BlockView {
    Heading { level: u8, spans: Seq<SpanView> },
    Paragraph { spans: Seq<SpanView> },
    CodeBlock { lang: Option<Seq<char>>, text: Seq<char> },
    Blockquote { spans: Seq<SpanView> },
    ListItem { depth: nat, marker: ListMarker, spans: Seq<SpanView> },
    Table { headers: Seq<Seq<SpanView>>, rows: Seq<Seq<Seq<SpanView>>> },
    Math { display: bool, text: Seq<char> },
    Rule,
}

impl DeepView for MdBlock {
    type V = BlockView;

    open spec fn deep_view(&self) -> BlockView {
        match self {
            MdBlock::Heading { level, spans } => BlockView::Heading {
                level: *level,
                spans: spans.deep_view(),
            },
            MdBlock::Paragraph { spans } => BlockView::Paragraph { spans: spans.deep_view() },
            MdBlock::CodeBlock { lang, text } => BlockView::CodeBlock {
                lang: opt_view(*lang),
                text: text@,
            },
            MdBlock::Blockquote { spans } => BlockView::Blockquote { spans: spans.deep_view() },
            MdBlock::ListItem { depth, marker, spans } => BlockView::ListItem {
                depth: *depth as nat,
                marker: *marker,
                spans: spans.deep_view(),
            },
            MdBlock::Table { headers, rows } => BlockView::Table {
                headers: headers.deep_view(),
                rows: rows.deep_view(),
            },
            MdBlock::Math { display, text } => BlockView::Math { display: *display, text: text@ },
            MdBlock::Rule => BlockView::Rule,
        }
    }
}

/// One open list: whether it is numbered, and how many items it has had.
#[derive(Clone, Copy, Debug, PartialEq, Eq, Structural)]
pub struct ListLevel {
    pub ordered: bool,
    pub count: u64,
}

/// What the parser keeps between events: the blocks so far, the inline run
/// being collected, the styles in force, the open lists and the table being
/// read.
pub struct ParseModel {
    pub blocks: Seq<BlockView>,
    pub current: Seq<SpanView>,
    pub code_text: Seq<char>,
    pub bold: bool,
    pub italic: bool,
    pub strikethrough: bool,
    pub link_url: Option<Seq<char>>,
    pub heading: Option<u8>,
    pub in_quote: bool,
    pub in_code: bool,
    pub code_lang: Option<Seq<char>>,
    pub marker: Option<ListMarker>,
    pub lists: Seq<ListLevel>,
    pub headers: Seq<Seq<SpanView>>,
    pub rows: Seq<Seq<Seq<SpanView>>>,
    pub cells: Seq<Seq<SpanView>>,
    pub cell_spans: Seq<SpanView>,
    pub in_cell: bool,
}

pub open spec fn initial_model() -> ParseModel {
    ParseModel {
        blocks: Seq::empty(),
        current: Seq::empty(),
        code_text: Seq::empty(),
        bold: false,
        italic: false,
        strikethrough: false,
        link_url: None,
        heading: None,
        in_quote: false,
        in_code: false,
        code_lang: None,
        marker: None,
        lists: Seq::empty(),
        headers: Seq::empty(),
        rows: Seq::empty(),
        cells: Seq::empty(),
        cell_spans: Seq::empty(),
        in_cell: false,
    }
}

/// Closes the inline run, if there is one: it becomes a heading inside a
/// heading, a quote inside a quote, an item where a list marker waits, and a
/// paragraph elsewhere.
pub open spec fn flushed(m: ParseModel) -> ParseModel {
    if m.current.len() == 0 {
        m
    } else {
        let spans = m.current;
        let rest = ParseModel { current: Seq::empty(), ..m };
        match m.heading {
            Some(level) => ParseModel {
                blocks: m.blocks.push(BlockView::Heading { level, spans }),
                heading: None,
                ..rest
            },
            None => if m.in_quote {
                ParseModel { blocks: m.blocks.push(BlockView::Blockquote { spans }), ..rest }
            } else {
                match m.marker {
                    Some(marker) => ParseModel {
                        blocks: m.blocks.push(
                            BlockView::ListItem { depth: m.lists.len(), marker, spans },
                        ),
                        marker: None,
                        ..rest
                    },
                    None => ParseModel {
                        blocks: m.blocks.push(BlockView::Paragraph { spans }),
                        ..rest
                    },
                }
            },
        }
    }
}

/// Text in the styles in force.
pub open spec fn plain_span(m: ParseModel, text: Seq<char>) -> SpanView {
    SpanView {
        text,
        bold: m.bold,
        italic: m.italic,
        strikethrough: m.strikethrough,
        code: false,
        link_url: m.link_url,
    }
}

/// Inline code: no other style, no link.
pub open spec fn code_span(text: Seq<char>) -> SpanView {
    SpanView {
        text,
        bold: false,
        italic: false,
        strikethrough: false,
        code: true,
        link_url: None,
    }
}

/// A span goes to the table cell being read, else to the inline run.
pub open spec fn with_span(m: ParseModel, s: SpanView) -> ParseModel {
    if m.in_cell {
        ParseModel { cell_spans: m.cell_spans.push(s), ..m }
    } else {
        ParseModel { current: m.current.push(s), ..m }
    }
}

/// One more, short of the largest `u64`.
pub open spec fn count_up(n: u64) -> u64 {
    if n < u64::MAX {
        (n + 1) as u64
    } else {
        n
    }
}

/// A list item counts in the innermost list and takes its marker from it;
/// outside any list it takes a bullet.
pub open spec fn item_started(m: ParseModel) -> ParseModel {
    if m.lists.len() == 0 {
        ParseModel { marker: Some(ListMarker::Bullet), ..m }
    } else {
        let top = m.lists.last();
        let n = count_up(top.count);
        ParseModel {
            lists: m.lists.drop_last().push(ListLevel { ordered: top.ordered, count: n }),
            marker: Some(
                if top.ordered {
                    ListMarker::Numbered(n)
                } else {
                    ListMarker::Bullet
                },
            ),
            ..m
        }
    }
}

/// Law: in an ordered list, successive items are numbered one after the
/// other: an item after an item numbered `k` is numbered `k + 1`.
pub proof fn law_ordered_items_count_up(m: ParseModel)
    requires
        m.lists.len() > 0,
        m.lists.last().ordered,
        m.lists.last().count < u64::MAX - 1,
    ensures
        ({
            let first = step(m, MdEventView::Start(MdStartView::Item));
            let second = step(
                step(first, MdEventView::End(MdEnd::Item)),
                MdEventView::Start(MdStartView::Item),
            );
            &&& first.marker == Some(ListMarker::Numbered((m.lists.last().count + 1) as u64))
            &&& second.marker == Some(ListMarker::Numbered((m.lists.last().count + 2) as u64))
        }),
{
    let first = step(m, MdEventView::Start(MdStartView::Item));
    let closed = step(first, MdEventView::End(MdEnd::Item));
    assert(closed.lists == first.lists);
    assert(first.lists.last().count == m.lists.last().count + 1);
}

/// Law: a list nested inside another and closed again leaves the outer
/// lists, and so the outer numbering, as they were.
pub proof fn law_nested_list_keeps_outer_count(m: ParseModel, first: Option<u64>)
    ensures
        step(
            step(m, MdEventView::Start(MdStartView::List(first))),
            MdEventView::End(MdEnd::List),
        ).lists == m.lists,
{
    let opened = step(m, MdEventView::Start(MdStartView::List(first)));
    assert(opened.lists.drop_last() =~= m.lists);
}

/// Law: an item of an unordered list is marked with a bullet.
pub proof fn law_unordered_items_are_bullets(m: ParseModel)
    requires
        m.lists.len() > 0,
        !m.lists.last().ordered,
    ensures
        step(m, MdEventView::Start(MdStartView::Item)).marker == Some(ListMarker::Bullet),
{
}

/// The language of a code block: a fenced block's info string, unless empty.
pub open spec fn fence_lang(info: Option<Seq<char>>) -> Option<Seq<char>> {
    match info {
        Some(s) => if s.len() > 0 {
            Some(s)
        } else {
            None
        },
        None => None,
    }
}

pub open spec fn start_step(m: ParseModel, t: MdStartView) -> ParseModel {
    match t {
        MdStartView::Heading(level) => ParseModel { heading: Some(level), ..flushed(m) },
        MdStartView::CodeBlock(info) => ParseModel {
            in_code: true,
            code_lang: fence_lang(info),
            ..flushed(m)
        },
        MdStartView::BlockQuote => ParseModel { in_quote: true, ..flushed(m) },
        MdStartView::List(first) => ParseModel {
            lists: m.lists.push(ListLevel { ordered: first is Some, count: 0 }),
            ..m
        },
        MdStartView::Item => item_started(m),
        MdStartView::Table => ParseModel {
            headers: Seq::empty(),
            rows: Seq::empty(),
            ..flushed(m)
        },
        MdStartView::TableHead => ParseModel { cells: Seq::empty(), ..m },
        MdStartView::TableRow => ParseModel { cells: Seq::empty(), ..m },
        MdStartView::TableCell => ParseModel { in_cell: true, cell_spans: Seq::empty(), ..m },
        MdStartView::Emphasis => ParseModel { italic: true, ..m },
        MdStartView::Strong => ParseModel { bold: true, ..m },
        MdStartView::Strikethrough => ParseModel { strikethrough: true, ..m },
        MdStartView::Link(url) => ParseModel { link_url: Some(url), ..m },
        MdStartView::Other => m,
    }
}

/// A code block's text without its one trailing newline.
pub open spec fn code_text_of(text: Seq<char>) -> Seq<char> {
    if text.len() > 0 && text.last() == '\n' {
        text.drop_last()
    } else {
        text
    }
}

pub open spec fn code_block_ended(m: ParseModel) -> ParseModel {
    if m.code_text.len() == 0 {
        ParseModel { in_code: false, code_lang: None, ..m }
    } else {
        ParseModel {
            blocks: m.blocks.push(
                BlockView::CodeBlock { lang: m.code_lang, text: code_text_of(m.code_text) },
            ),
            in_code: false,
            code_lang: None,
            code_text: Seq::empty(),
            ..m
        }
    }
}

pub open spec fn table_ended(m: ParseModel) -> ParseModel {
    let cleared = ParseModel { headers: Seq::empty(), rows: Seq::empty(), ..m };
    if m.headers.len() > 0 || m.rows.len() > 0 {
        ParseModel {
            blocks: m.blocks.push(BlockView::Table { headers: m.headers, rows: m.rows }),
            ..cleared
        }
    } else {
        cleared
    }
}

pub open spec fn end_step(m: ParseModel, t: MdEnd) -> ParseModel {
    match t {
        MdEnd::Heading => ParseModel { heading: None, ..flushed(m) },
        MdEnd::Paragraph => flushed(m),
        MdEnd::CodeBlock => code_block_ended(m),
        MdEnd::BlockQuote => ParseModel { in_quote: false, ..flushed(m) },
        MdEnd::List => if m.lists.len() > 0 {
            ParseModel { lists: m.lists.drop_last(), ..m }
        } else {
            m
        },
        MdEnd::Item => ParseModel { marker: None, ..flushed(m) },
        MdEnd::TableCell => ParseModel {
            in_cell: false,
            cells: m.cells.push(m.cell_spans),
            cell_spans: Seq::empty(),
            ..m
        },
        MdEnd::TableRow => ParseModel { rows: m.rows.push(m.cells), cells: Seq::empty(), ..m },
        MdEnd::TableHead => ParseModel { headers: m.cells, cells: Seq::empty(), ..m },
        MdEnd::Table => table_ended(m),
        MdEnd::Emphasis => ParseModel { italic: false, ..m },
        MdEnd::Strong => ParseModel { bold: false, ..m },
        MdEnd::Strikethrough => ParseModel { strikethrough: false, ..m },
        MdEnd::Link => ParseModel { link_url: None, ..m },
        MdEnd::Other => m,
    }
}

/// What one event does to the parser's state.
pub open spec fn step(m: ParseModel, e: MdEventView) -> ParseModel {
    match e {
        MdEventView::Start(t) => start_step(m, t),
        MdEventView::End(t) => end_step(m, t),
        MdEventView::Text(s) => if m.in_code {
            ParseModel { code_text: m.code_text + s, ..m }
        } else {
            with_span(m, plain_span(m, s))
        },
        MdEventView::Code(s) => if m.in_code {
            ParseModel { code_text: m.code_text + s + seq!['\n'], ..m }
        } else {
            with_span(m, code_span(s))
        },
        MdEventView::SoftBreak => with_span(m, plain_span(m, seq![' '])),
        MdEventView::HardBreak => with_span(m, plain_span(m, seq!['\n'])),
        MdEventView::InlineMath(s) => ParseModel {
            current: m.current.push(code_span(seq!['$'] + s + seq!['$'])),
            ..m
        },
        MdEventView::DisplayMath(s) => {
            let f = flushed(m);
            ParseModel { blocks: f.blocks.push(BlockView::Math { display: true, text: s }), ..f }
        },
        MdEventView::Rule => {
            let f = flushed(m);
            ParseModel { blocks: f.blocks.push(BlockView::Rule), ..f }
        },
        MdEventView::TaskListMarker(checked) => ParseModel {
            marker: Some(ListMarker::Task { checked }),
            ..m
        },
        MdEventView::Other => m,
    }
}

/// The parser's state after a run of events.
pub open spec fn run(es: Seq<MdEventView>) -> ParseModel
    decreases es.len(),
{
    if es.len() == 0 {
        initial_model()
    } else {
        step(run(es.drop_last()), es.last())
    }
}

/// The blocks of an event stream: those the events closed, and the inline run
/// left open at the end.
pub open spec fn blocks_of(es: Seq<MdEventView>) -> Seq<BlockView> {
    flushed(run(es)).blocks
}

// ---------------------------------------------------------------------------
// The parser.
// ---------------------------------------------------------------------------

struct ParseState {
    blocks: Vec<MdBlock>,
    current: Vec<MdSpan>,
    code_text: Vec<char>,
    bold: bool,
    italic: bool,
    strikethrough: bool,
    link_url: Option<String>,
    heading: Option<u8>,
    in_quote: bool,
    in_code: bool,
    code_lang: Option<String>,
    marker: Option<ListMarker>,
    lists: Vec<ListLevel>,
    headers: Vec<Vec<MdSpan>>,
    rows: Vec<Vec<Vec<MdSpan>>>,
    cells: Vec<Vec<MdSpan>>,
    cell_spans: Vec<MdSpan>,
    in_cell: bool,
}

impl View for ParseState {
    type V = ParseModel;

    closed spec fn view(&self) -> ParseModel {
        ParseModel {
            blocks: self.blocks.deep_view(),
            current: self.current.deep_view(),
            code_text: self.code_text@,
            bold: self.bold,
            italic: self.italic,
            strikethrough: self.strikethrough,
            link_url: opt_view(self.link_url),
            heading: self.heading,
            in_quote: self.in_quote,
            in_code: self.in_code,
            code_lang: opt_view(self.code_lang),
            marker: self.marker,
            lists: self.lists@,
            headers: self.headers.deep_view(),
            rows: self.rows.deep_view(),
            cells: self.cells.deep_view(),
            cell_spans: self.cell_spans.deep_view(),
            in_cell: self.in_cell,
        }
    }
}

impl ParseState {
    fn new() -> (s: Self)
        ensures
            s@ == initial_model(),
    {
        let s = ParseState {
            blocks: Vec::new(),
            current: Vec::new(),
            code_text: Vec::new(),
            bold: false,
            italic: false,
            strikethrough: false,
            link_url: None,
            heading: None,
            in_quote: false,
            in_code: false,
            code_lang: None,
            marker: None,
            lists: Vec::new(),
            headers: Vec::new(),
            rows: Vec::new(),
            cells: Vec::new(),
            cell_spans: Vec::new(),
            in_cell: false,
        };
        assert(s.blocks.deep_view() =~= Seq::empty());
        assert(s.current.deep_view() =~= Seq::empty());
        assert(s.headers.deep_view() =~= Seq::empty());
        assert(s.rows.deep_view() =~= Seq::empty());
        assert(s.cells.deep_view() =~= Seq::empty());
        assert(s.cell_spans.deep_view() =~= Seq::empty());
        s
    }

    fn push_block(&mut self, b: MdBlock)
        ensures
            final(self)@ == (ParseModel { blocks: old(self)@.blocks.push(b.deep_view()), ..old(self)@ }),
    {
        self.blocks.push(b);
        assert(self.blocks.deep_view() =~= old(self).blocks.deep_view().push(b.deep_view()));
    }

    fn flush(&mut self)
        ensures
            final(self)@ == flushed(old(self)@),
    {
        if self.current.len() == 0 {
            return;
        }
        let mut spans: Vec<MdSpan> = Vec::new();
        std::mem::swap(&mut spans, &mut self.current);
        assert(self.current.deep_view() =~= Seq::empty());
        let block = match self.heading {
            Some(level) => {
                self.heading = None;
                MdBlock::Heading { level, spans }
            },
            None => if self.in_quote {
                MdBlock::Blockquote { spans }
            } else {
                match self.marker {
                    Some(marker) => {
                        self.marker = None;
                        MdBlock::ListItem { depth: self.lists.len(), marker, spans }
                    },
                    None => MdBlock::Paragraph { spans },
                }
            },
        };
        self.push_block(block);
    }

    fn styled(&self, text: String) -> (r: MdSpan)
        ensures
            r.deep_view() == plain_span(self@, text@),
    {
        MdSpan {
            text,
            bold: self.bold,
            italic: self.italic,
            strikethrough: self.strikethrough,
            code: false,
            link_url: copy_opt_text(&self.link_url),
        }
    }

    fn add_span(&mut self, s: MdSpan)
        ensures
            final(self)@ == with_span(old(self)@, s.deep_view()),
    {
        if self.in_cell {
            self.cell_spans.push(s);
            assert(self.cell_spans.deep_view() =~= old(self).cell_spans.deep_view().push(
                s.deep_view(),
            ));
        } else {
            self.current.push(s);
            assert(self.current.deep_view() =~= old(self).current.deep_view().push(
                s.deep_view(),
            ));
        }
    }

    fn start_item(&mut self)
        ensures
            final(self)@ == item_started(old(self)@),
    {
        let n = self.lists.len();
        if n == 0 {
            self.marker = Some(ListMarker::Bullet);
        } else {
            let top = self.lists[n - 1];
            let count = if top.count < u64::MAX {
                top.count + 1
            } else {
                top.count
            };
            self.lists.pop();
            self.lists.push(ListLevel { ordered: top.ordered, count });
            self.marker = Some(
                if top.ordered {
                    ListMarker::Numbered(count)
                } else {
                    ListMarker::Bullet
                },
            );
            assert(self.lists@ =~= old(self).lists@.drop_last().push(
                ListLevel { ordered: top.ordered, count },
            ));
        }
    }

    fn start(&mut self, t: &MdStart)
        ensures
            final(self)@ == start_step(old(self)@, start_view(*t)),
    {
        match t {
            MdStart::Heading(level) => {
                self.flush();
                self.heading = Some(*level);
            },
            MdStart::CodeBlock(info) => {
                self.flush();
                self.in_code = true;
                self.code_lang = match info {
                    Some(s) => if s.as_str().is_empty() {
                        None
                    } else {
                        Some(s.clone())
                    },
                    None => None,
                };
            },
            MdStart::BlockQuote => {
                self.flush();
                self.in_quote = true;
            },
            MdStart::List(first) => {
                self.lists.push(ListLevel { ordered: first.is_some(), count: 0 });
            },
            MdStart::Item => self.start_item(),
            MdStart::Table => {
                self.flush();
                self.headers = Vec::new();
                self.rows = Vec::new();
                assert(self.headers.deep_view() =~= Seq::empty());
                assert(self.rows.deep_view() =~= Seq::empty());
            },
            MdStart::TableHead | MdStart::TableRow => {
                self.cells = Vec::new();
                assert(self.cells.deep_view() =~= Seq::empty());
            },
            MdStart::TableCell => {
                self.in_cell = true;
                self.cell_spans = Vec::new();
                assert(self.cell_spans.deep_view() =~= Seq::empty());
            },
            MdStart::Emphasis => self.italic = true,
            MdStart::Strong => self.bold = true,
            MdStart::Strikethrough => self.strikethrough = true,
            MdStart::Link(url) => self.link_url = Some(url.clone()),
            MdStart::Other => {},
        }
    }

    fn end_code_block(&mut self)
        ensures
            final(self)@ == code_block_ended(old(self)@),
    {
        self.in_code = false;
        let n = self.code_text.len();
        if n > 0 {
            if self.code_text[n - 1] == '\n' {
                self.code_text.pop();
            }
            let mut text: Vec<char> = Vec::new();
            std::mem::swap(&mut text, &mut self.code_text);
            let mut lang: Option<String> = None;
            std::mem::swap(&mut lang, &mut self.code_lang);
            let body = string_of(&text);
            self.push_block(MdBlock::CodeBlock { lang, text: body });
        }
        self.code_lang = None;
    }

    fn end_table(&mut self)
        ensures
            final(self)@ == table_ended(old(self)@),
    {
        let mut headers: Vec<Vec<MdSpan>> = Vec::new();
        std::mem::swap(&mut headers, &mut self.headers);
        let mut rows: Vec<Vec<Vec<MdSpan>>> = Vec::new();
        std::mem::swap(&mut rows, &mut self.rows);
        assert(self.headers.deep_view() =~= Seq::empty());
        assert(self.rows.deep_view() =~= Seq::empty());
        if headers.len() > 0 || rows.len() > 0 {
            self.push_block(MdBlock::Table { headers, rows });
        }
    }

    fn end_cell(&mut self)
        ensures
            final(self)@ == (ParseModel {
                in_cell: false,
                cells: old(self)@.cells.push(old(self)@.cell_spans),
                cell_spans: Seq::empty(),
                ..old(self)@
            }),
    {
        self.in_cell = false;
        let mut cell: Vec<MdSpan> = Vec::new();
        std::mem::swap(&mut cell, &mut self.cell_spans);
        self.cells.push(cell);
        assert(self.cell_spans.deep_view() =~= Seq::empty());
        assert(self.cells.deep_view() =~= old(self).cells.deep_view().push(
            old(self).cell_spans.deep_view(),
        ));
    }

    fn end_row(&mut self)
        ensures
            final(self)@ == (ParseModel {
                rows: old(self)@.rows.push(old(self)@.cells),
                cells: Seq::empty(),
                ..old(self)@
            }),
    {
        let mut row: Vec<Vec<MdSpan>> = Vec::new();
        std::mem::swap(&mut row, &mut self.cells);
        self.rows.push(row);
        assert(self.cells.deep_view() =~= Seq::empty());
        assert(self.rows.deep_view() =~= old(self).rows.deep_view().push(
            old(self).cells.deep_view(),
        ));
    }

    fn end_head(&mut self)
        ensures
            final(self)@ == (ParseModel {
                headers: old(self)@.cells,
                cells: Seq::empty(),
                ..old(self)@
            }),
    {
        let mut head: Vec<Vec<MdSpan>> = Vec::new();
        std::mem::swap(&mut head, &mut self.cells);
        self.headers = head;
        assert(self.cells.deep_view() =~= Seq::empty());
    }

    fn end(&mut self, t: MdEnd)
        ensures
            final(self)@ == end_step(old(self)@, t),
    {
        match t {
            MdEnd::Heading => {
                self.flush();
                self.heading = None;
            },
            MdEnd::Paragraph => self.flush(),
            MdEnd::CodeBlock => self.end_code_block(),
            MdEnd::BlockQuote => {
                self.flush();
                self.in_quote = false;
            },
            MdEnd::List => {
                if self.lists.len() > 0 {
                    self.lists.pop();
                }
            },
            MdEnd::Item => {
                self.flush();
                self.marker = None;
            },
            MdEnd::TableCell => self.end_cell(),
            MdEnd::TableRow => self.end_row(),
            MdEnd::TableHead => self.end_head(),
            MdEnd::Table => self.end_table(),
            MdEnd::Emphasis => self.italic = false,
            MdEnd::Strong => self.bold = false,
            MdEnd::Strikethrough => self.strikethrough = false,
            MdEnd::Link => self.link_url = None,
            MdEnd::Other => {},
        }
    }

    fn inline_text(&mut self, s: &String)
        ensures
            final(self)@ == step(old(self)@, MdEventView::Text(s@)),
    {
        if self.in_code {
            extend_str(&mut self.code_text, s.as_str());
        } else {
            let span = self.styled(s.clone());
            self.add_span(span);
        }
    }

    fn inline_code(&mut self, s: &String)
        ensures
            final(self)@ == step(old(self)@, MdEventView::Code(s@)),
    {
        if self.in_code {
            extend_str(&mut self.code_text, s.as_str());
            self.code_text.push('\n');
            assert(self.code_text@ =~= old(self).code_text@ + s@ + seq!['\n']);
        } else {
            self.add_span(
                MdSpan {
                    text: s.clone(),
                    bold: false,
                    italic: false,
                    strikethrough: false,
                    code: true,
                    link_url: None,
                },
            );
        }
    }

    fn inline_break(&mut self, c: char)
        requires
            c == ' ' || c == '\n',
        ensures
            final(self)@ == with_span(old(self)@, plain_span(old(self)@, seq![c])),
    {
        let mut t: Vec<char> = Vec::new();
        t.push(c);
        let span = self.styled(string_of(&t));
        self.add_span(span);
    }

    fn inline_math(&mut self, s: &String)
        ensures
            final(self)@ == step(old(self)@, MdEventView::InlineMath(s@)),
    {
        let mut t: Vec<char> = Vec::new();
        t.push('$');
        extend_str(&mut t, s.as_str());
        t.push('$');
        let span = MdSpan {
            text: string_of(&t),
            bold: false,
            italic: false,
            strikethrough: false,
            code: true,
            link_url: None,
        };
        self.current.push(span);
        assert(t@ =~= seq!['$'] + s@ + seq!['$']);
        assert(self.current.deep_view() =~= old(self).current.deep_view().push(
            span.deep_view(),
        ));
    }

    fn step(&mut self, e: &MdEvent)
        ensures
            final(self)@ == step(old(self)@, event_view(*e)),
    {
        match e {
            MdEvent::Start(t) => self.start(t),
            MdEvent::End(t) => self.end(*t),
            MdEvent::Text(s) => self.inline_text(s),
            MdEvent::Code(s) => self.inline_code(s),
            MdEvent::InlineMath(s) => self.inline_math(s),
            MdEvent::DisplayMath(s) => {
                self.flush();
                self.push_block(MdBlock::Math { display: true, text: s.clone() });
            },
            MdEvent::SoftBreak => self.inline_break(' '),
            MdEvent::HardBreak => self.inline_break('\n'),
            MdEvent::Rule => {
                self.flush();
                self.push_block(MdBlock::Rule);
            },
            MdEvent::TaskListMarker(checked) => {
                self.marker = Some(ListMarker::Task { checked: *checked });
            },
            MdEvent::Other => {},
        }
    }
}

/// Groups a markdown event stream into blocks: headings, paragraphs, quotes,
/// list items, code blocks, tables, math and rules, each with its inline spans
/// and their styles.
pub fn parse_events(events: &Vec<MdEvent>) -> (r: Vec<MdBlock>)
    ensures
        r.deep_view() == blocks_of(events_view(events@)),
{
    let ghost es = events_view(events@);
    let mut st = ParseState::new();
    let mut i: usize = 0;
    while i < events.len()
        invariant
            i <= events.len(),
            es == events_view(events@),
            st@ == run(es.take(i as int)),
        decreases events.len() - i,
    {
        assert(es.take(i + 1).drop_last() =~= es.take(i as int));
        st.step(&events[i]);
        i += 1;
    }
    assert(es.take(i as int) =~= es);
    st.flush();
    st.blocks
}

/// The blocks of a markdown text, as pulldown-cmark parses it with tables,
/// footnotes, strikethrough, task lists and math.
pub fn parse_blocks(content: &str) -> (r: Vec<MdBlock>)
    ensures
        r.deep_view() == blocks_of(md_events(content@)),
{
    let events = markdown_events(content);
    parse_events(&events)
}

} // verus!
