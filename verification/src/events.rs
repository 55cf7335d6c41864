//! The event stream of an agent run and the two console renderers that show
//! it: streamed tokens go to stdout, notices to stderr, and in JSON mode a
//! single report is printed at the end.

use crate::agent::{call_view, calls_view, stored_calls_view, CallView, ToolCall};
use crate::session::{opt_view, SessionMessage, SessionToolCall};
use crate::text::{chars_of, decimal, decimal_chars, extend_chars, extend_str, push_text, string_of, trim, trim_chars};
use vstd::prelude::*;

verus! {

/// Token counts the model reported for a run.
#[derive(Clone, Copy, Debug)]
pub struct TokenUsage {
    pub prompt_tokens: u64,
    pub completion_tokens: u64,
    pub total_tokens: u64,
}

/// One step of the agent loop, as it streams in.
#[derive(Debug)]
pub enum AgentEvent {
    Token { text: String },
    Reasoning { text: String },
    ToolCallRequired { calls: Vec<ToolCall> },
    ToolResult { call: ToolCall, result: String },
    Done { usage: Option<TokenUsage> },
    Error { message: String },
}

/// Where a piece of output goes.
#[derive(Clone, Copy, Debug, PartialEq, Eq, Structural)]
pub enum Stream {
    Stdout,
    Stderr,
}

/// How the label of a piece of output is coloured.
#[derive(Clone, Copy, Debug, PartialEq, Eq, Structural)]
pub enum Tone {
    Plain,
    Dimmed,
    Red,
}

/// One write to the console: `lead`, then `label` in its tone, then `rest`.
#[derive(Debug)]
pub struct Emit {
    pub stream: Stream,
    pub lead: String,
    pub label: String,
    pub tone: Tone,
    pub rest: String,
}

pub type EmitView = (Stream, Seq<char>, Seq<char>, Tone, Seq<char>);

pub open spec fn emit_view(e: Emit) -> EmitView {
    (e.stream, e.lead@, e.label@, e.tone, e.rest@)
}

pub open spec fn emits_view(v: Seq<Emit>) -> Seq<EmitView> {
    Seq::new(v.len(), |i: int| emit_view(v[i]))
}

/// The two renderers differ only in the wording of their notices.
#[derive(Clone, Copy, Debug, PartialEq, Eq, Structural)]
pub enum RendererKind {
    /// The `code` subcommand's renderer.
    Coding,
    /// The `run` subcommand's renderer.
    Loop,
}

pub open spec fn printed(t: Seq<char>) -> EmitView {
    (Stream::Stdout, t, seq![], Tone::Plain, seq![])
}

pub open spec fn notice(lead: Seq<char>, label: Seq<char>, tone: Tone, rest: Seq<char>) -> EmitView {
    (Stream::Stderr, lead, label, tone, rest)
}

/// What flushing the reasoning buffer shows: its trimmed text, in verbose
/// mode outside JSON, when there is any.
pub open spec fn reasoning_flush(verbose: bool, json: bool, buf: Seq<char>) -> Seq<EmitView> {
    if verbose && !json && buf.len() > 0 {
        seq![notice(seq![], "reasoning:"@, Tone::Dimmed, " "@ + trim(buf) + "\n"@)]
    } else {
        seq![]
    }
}

pub open spec fn preview_limit(kind: RendererKind) -> nat {
    if kind == RendererKind::Coding {
        240
    } else {
        200
    }
}

/// The first characters of a tool result that a notice shows.
pub open spec fn preview(kind: RendererKind, s: Seq<char>) -> Seq<char> {
    if s.len() <= preview_limit(kind) {
        s
    } else {
        s.take(preview_limit(kind) as int)
    }
}

pub open spec fn tool_calls_notice(kind: RendererKind, n: nat) -> EmitView {
    if kind == RendererKind::Coding {
        notice("\n"@, "tools"@, Tone::Dimmed, " "@ + decimal(n) + " tool call(s)\n"@)
    } else {
        notice("\n"@, "executing"@, Tone::Dimmed, " "@ + decimal(n) + " tool call(s)...\n"@)
    }
}

pub open spec fn usage_notice(kind: RendererKind, u: TokenUsage) -> EmitView {
    if kind == RendererKind::Coding {
        notice("\n"@, "usage"@, Tone::Dimmed, ": "@ + decimal(u.total_tokens as nat) + " tokens\n"@)
    } else {
        notice(
            "\n"@,
            "usage"@,
            Tone::Dimmed,
            ": "@ + decimal(u.total_tokens as nat) + " tok (prompt: "@ + decimal(
                u.prompt_tokens as nat,
            ) + ", completion: "@ + decimal(u.completion_tokens as nat) + ")\n"@,
        )
    }
}

/// What rendering one event writes, given the reasoning buffered so far.
pub open spec fn event_emits(
    kind: RendererKind,
    verbose: bool,
    json: bool,
    reasoning: Seq<char>,
    e: AgentEvent,
) -> Seq<EmitView> {
    let chatty = verbose && !json;
    match e {
        AgentEvent::Token { text } => {
            if json {
                seq![]
            } else {
                seq![printed(text@)]
            }
        },
        AgentEvent::Reasoning { .. } => seq![],
        AgentEvent::ToolCallRequired { calls } => reasoning_flush(verbose, json, reasoning) + if chatty {
            seq![tool_calls_notice(kind, calls@.len())]
        } else {
            seq![]
        },
        AgentEvent::ToolResult { call, result } => {
            if chatty {
                seq![
                    notice(
                        "\n"@,
                        "tool"@,
                        Tone::Dimmed,
                        " "@ + call.name@ + " -> "@ + preview(kind, result@) + "\n"@,
                    ),
                ]
            } else {
                seq![]
            }
        },
        AgentEvent::Done { usage } => reasoning_flush(verbose, json, reasoning) + if chatty
            && usage is Some {
            seq![usage_notice(kind, usage->0)]
        } else {
            seq![]
        },
        AgentEvent::Error { message } => reasoning_flush(verbose, json, reasoning) + seq![
            notice(seq![], "error:"@, Tone::Red, " "@ + message@ + "\n"@),
        ],
    }
}

/// The reasoning buffer after an event: reasoning text accumulates, and
/// every event that flushes it empties it.
pub open spec fn next_reasoning(reasoning: Seq<char>, e: AgentEvent) -> Seq<char> {
    match e {
        AgentEvent::Reasoning { text } => reasoning + text@,
        AgentEvent::Token { .. } => reasoning,
        AgentEvent::ToolResult { .. } => reasoning,
        _ => seq![],
    }
}

/// The assistant text an event carries.
pub open spec fn token_text(e: AgentEvent) -> Seq<char> {
    match e {
        AgentEvent::Token { text } => text@,
        _ => seq![],
    }
}

/// The assistant text of a run: its tokens, concatenated.
pub open spec fn content_of(events: Seq<AgentEvent>) -> Seq<char>
    decreases events.len(),
{
    if events.len() == 0 {
        seq![]
    } else {
        content_of(events.drop_last()) + token_text(events.last())
    }
}

/// The reasoning still buffered after a run of events.
pub open spec fn reasoning_after(events: Seq<AgentEvent>) -> Seq<char>
    decreases events.len(),
{
    if events.len() == 0 {
        seq![]
    } else {
        next_reasoning(reasoning_after(events.drop_last()), events.last())
    }
}

/// Everything written while a run of events is rendered.
pub open spec fn run_emits(kind: RendererKind, verbose: bool, json: bool, events: Seq<AgentEvent>) -> Seq<
    EmitView,
>
    decreases events.len(),
{
    if events.len() == 0 {
        seq![]
    } else {
        run_emits(kind, verbose, json, events.drop_last()) + event_emits(
            kind,
            verbose,
            json,
            reasoning_after(events.drop_last()),
            events.last(),
        )
    }
}

/// How serde_json escapes a character in a string literal: `"` and `\`
/// behind a backslash, `\b \t \n \f \r` for those controls, `\u00XX`
/// (lowercase hex) for the other characters below U+0020, anything else as
/// itself.
pub open spec fn json_escape(c: char) -> Seq<char> {
    let n = c as u32;
    if c == '"' {
        seq!['\\', '"']
    } else if c == '\\' {
        seq!['\\', '\\']
    } else if n == 8 {
        seq!['\\', 'b']
    } else if n == 9 {
        seq!['\\', 't']
    } else if n == 10 {
        seq!['\\', 'n']
    } else if n == 12 {
        seq!['\\', 'f']
    } else if n == 13 {
        seq!['\\', 'r']
    } else if n < 32 {
        seq!['\\', 'u', '0', '0', crate::text::digit_char((n / 16) as nat), crate::text::digit_char((n % 16) as nat)]
    } else {
        seq![c]
    }
}

pub open spec fn json_escaped(s: Seq<char>) -> Seq<char>
    decreases s.len(),
{
    if s.len() == 0 {
        seq![]
    } else {
        json_escaped(s.drop_last()) + json_escape(s.last())
    }
}

/// How serde_json writes a string as a JSON string literal: quoted, each
/// character escaped (see `json_escape`).
pub open spec fn json_quoted(s: Seq<char>) -> Seq<char> {
    seq!['"'] + json_escaped(s) + seq!['"']
}

/// serde_json `to_string` of a string slice: the quoted, escaped literal
/// (`format_escaped_str` with its `ESCAPE` table and lowercase hex digits).
/// Serialising a `str` does not fail.
#[verifier::external_body]
pub(crate) fn json_string(s: &str) -> (r: String)
    ensures
        r@ == json_quoted(s@),
{
    serde_json::to_string(s).unwrap_or_default()
}

/// serde_json `to_string_pretty` of the object `{"content": content,
/// "total_tokens": total}`: two-space indentation, the keys in this order
/// (the map sorts them, and insertion order is the same), the text as a
/// quoted literal.
#[verifier::external_body]
fn json_report_text(content: &str, total: u64) -> (r: String)
    ensures
        r@ == json_report(content@, total as nat),
{
    let mut map = serde_json::Map::new();
    map.insert("content".to_owned(), serde_json::Value::String(content.to_owned()));
    map.insert("total_tokens".to_owned(), serde_json::Value::from(total));
    serde_json::to_string_pretty(&serde_json::Value::Object(map)).unwrap_or_default()
}

/// The JSON report of a run, as serde_json pretty-prints it.
pub open spec fn json_report(content: Seq<char>, total: nat) -> Seq<char> {
    "{\n  \"content\": "@ + json_quoted(content) + ",\n  \"total_tokens\": "@ + decimal(total)
        + "\n}"@
}

pub open spec fn total_or_zero(t: Option<u64>) -> nat {
    match t {
        Some(n) => n as nat,
        None => 0,
    }
}

/// What finishing a renderer writes: the buffered reasoning, then the JSON
/// report in JSON mode, or a final newline.
pub open spec fn finish_emits(
    verbose: bool,
    json: bool,
    reasoning: Seq<char>,
    content: Seq<char>,
    total: Option<u64>,
) -> Seq<EmitView> {
    reasoning_flush(verbose, json, reasoning) + if json {
        seq![printed(json_report(content, total_or_zero(total)) + "\n"@)]
    } else {
        seq![printed("\n"@)]
    }
}

// ---------------------------------------------------------------------------
// Building the writes.
// ---------------------------------------------------------------------------

fn print_emit(text: String) -> (r: Emit)
    ensures
        emit_view(r) == printed(text@),
{
    Emit { stream: Stream::Stdout, lead: text, label: String::new(), tone: Tone::Plain, rest: String::new() }
}

fn notice_emit(lead: &str, label: &str, tone: Tone, rest: Vec<char>) -> (r: Emit)
    ensures
        emit_view(r) == notice(lead@, label@, tone, rest@),
{
    Emit {
        stream: Stream::Stderr,
        lead: lead.to_owned(),
        label: label.to_owned(),
        tone,
        rest: string_of(&rest),
    }
}

fn reasoning_emits(verbose: bool, json: bool, buf: &String) -> (r: Vec<Emit>)
    ensures
        emits_view(r@) == reasoning_flush(verbose, json, buf@),
{
    let mut r: Vec<Emit> = Vec::new();
    let b = chars_of(buf.as_str());
    if verbose && !json && b.len() > 0 {
        let t = trim_chars(&b);
        let mut rest = chars_of(" ");
        extend_chars(&mut rest, &t);
        extend_str(&mut rest, "\n");
        r.push(notice_emit("", "reasoning:", Tone::Dimmed, rest));
    }
    proof {
        reveal_strlit("");
        assert(""@ =~= Seq::<char>::empty());
    }
    assert(emits_view(r@) =~= reasoning_flush(verbose, json, buf@));
    r
}

fn decimal_of(n: u64) -> (r: Vec<char>)
    ensures
        r@ == decimal(n as nat),
{
    decimal_chars(n as u128)
}

fn append_emits(a: &mut Vec<Emit>, b: Vec<Emit>)
    ensures
        emits_view(final(a)@) == emits_view(old(a)@) + emits_view(b@),
{
    let mut b = b;
    let ghost a0 = emits_view(a@);
    let ghost bv = emits_view(b@);
    a.append(&mut b);
    assert(emits_view(a@) =~= a0 + bv);
}

fn event_writes(kind: RendererKind, verbose: bool, json: bool, reasoning: &String, e: &AgentEvent) -> (r:
    Vec<Emit>)
    ensures
        emits_view(r@) == event_emits(kind, verbose, json, reasoning@, *e),
{
    let chatty = verbose && !json;
    match e {
        AgentEvent::Token { text } => {
            let mut r: Vec<Emit> = Vec::new();
            if !json {
                r.push(print_emit(text.clone()));
            }
            assert(emits_view(r@) =~= event_emits(kind, verbose, json, reasoning@, *e));
            r
        },
        AgentEvent::Reasoning { .. } => {
            let r: Vec<Emit> = Vec::new();
            assert(emits_view(r@) =~= event_emits(kind, verbose, json, reasoning@, *e));
            r
        },
        AgentEvent::ToolCallRequired { calls } => {
            let mut r = reasoning_emits(verbose, json, reasoning);
            let mut more: Vec<Emit> = Vec::new();
            if chatty {
                let mut rest = chars_of(" ");
                let d = decimal_chars(calls.len() as u128);
                extend_chars(&mut rest, &d);
                if kind == RendererKind::Coding {
                    extend_str(&mut rest, " tool call(s)\n");
                    more.push(notice_emit("\n", "tools", Tone::Dimmed, rest));
                } else {
                    extend_str(&mut rest, " tool call(s)...\n");
                    more.push(notice_emit("\n", "executing", Tone::Dimmed, rest));
                }
            }
            let ghost mv = emits_view(more@);
            assert(mv =~= (if chatty {
                seq![tool_calls_notice(kind, calls@.len())]
            } else {
                seq![]
            }));
            append_emits(&mut r, more);
            r
        },
        AgentEvent::ToolResult { call, result } => {
            let mut r: Vec<Emit> = Vec::new();
            if chatty {
                let res = chars_of(result.as_str());
                let limit: usize = if kind == RendererKind::Coding {
                    240
                } else {
                    200
                };
                let shown = if res.len() <= limit {
                    res
                } else {
                    crate::text::slice_chars(&res, 0, limit)
                };
                let mut rest = chars_of(" ");
                extend_str(&mut rest, call.name.as_str());
                extend_str(&mut rest, " -> ");
                extend_chars(&mut rest, &shown);
                extend_str(&mut rest, "\n");
                r.push(notice_emit("\n", "tool", Tone::Dimmed, rest));
            }
            assert(emits_view(r@) =~= event_emits(kind, verbose, json, reasoning@, *e));
            r
        },
        AgentEvent::Done { usage } => {
            let mut r = reasoning_emits(verbose, json, reasoning);
            let mut more: Vec<Emit> = Vec::new();
            if chatty {
                match usage {
                    Some(u) => {
                        let mut rest = chars_of(": ");
                        extend_chars(&mut rest, &decimal_of(u.total_tokens));
                        if kind == RendererKind::Coding {
                            extend_str(&mut rest, " tokens\n");
                        } else {
                            extend_str(&mut rest, " tok (prompt: ");
                            extend_chars(&mut rest, &decimal_of(u.prompt_tokens));
                            extend_str(&mut rest, ", completion: ");
                            extend_chars(&mut rest, &decimal_of(u.completion_tokens));
                            extend_str(&mut rest, ")\n");
                        }
                        more.push(notice_emit("\n", "usage", Tone::Dimmed, rest));
                    },
                    None => {},
                }
            }
            let ghost mv = emits_view(more@);
            assert(mv =~= (if chatty && usage is Some {
                seq![usage_notice(kind, usage->0)]
            } else {
                seq![]
            }));
            append_emits(&mut r, more);
            r
        },
        AgentEvent::Error { message } => {
            let mut r = reasoning_emits(verbose, json, reasoning);
            let mut rest = chars_of(" ");
            extend_str(&mut rest, message.as_str());
            extend_str(&mut rest, "\n");
            let mut more: Vec<Emit> = Vec::new();
            more.push(notice_emit("", "error:", Tone::Red, rest));
            proof {
                reveal_strlit("");
                assert(""@ =~= Seq::<char>::empty());
            }
            let ghost mv = emits_view(more@);
            assert(mv =~= seq![notice(seq![], "error:"@, Tone::Red, " "@ + message@ + "\n"@)]);
            append_emits(&mut r, more);
            r
        },
    }
}

fn next_reasoning_buf(reasoning: &mut String, e: &AgentEvent)
    ensures
        final(reasoning)@ == next_reasoning(old(reasoning)@, *e),
{
    match e {
        AgentEvent::Reasoning { text } => push_text(reasoning, text.as_str()),
        AgentEvent::Token { .. } => {},
        AgentEvent::ToolResult { .. } => {},
        _ => {
            *reasoning = String::new();
        },
    }
}

fn add_token(content: &mut String, e: &AgentEvent)
    ensures
        final(content)@ == old(content)@ + token_text(*e),
{
    match e {
        AgentEvent::Token { text } => push_text(content, text.as_str()),
        _ => {
            assert(old(content)@ + token_text(*e) =~= old(content)@);
        },
    }
}

fn finish_writes(verbose: bool, json: bool, reasoning: &String, content: &String, total: Option<u64>) -> (r:
    Vec<Emit>)
    ensures
        emits_view(r@) == finish_emits(verbose, json, reasoning@, content@, total),
{
    let mut r = reasoning_emits(verbose, json, reasoning);
    let mut more: Vec<Emit> = Vec::new();
    if json {
        let n: u64 = match total {
            Some(n) => n,
            None => 0,
        };
        let mut doc = chars_of(json_report_text(content.as_str(), n).as_str());
        extend_str(&mut doc, "\n");
        more.push(print_emit(string_of(&doc)));
    } else {
        more.push(print_emit("\n".to_owned()));
    }
    let ghost mv = emits_view(more@);
    assert(mv =~= (if json {
        seq![printed(json_report(content@, total_or_zero(total)) + "\n"@)]
    } else {
        seq![printed("\n"@)]
    }));
    append_emits(&mut r, more);
    r
}

// ---------------------------------------------------------------------------
// The renderers.
// ---------------------------------------------------------------------------

/// Renders the `code` subcommand's event stream.
pub struct CodingEventRenderer {
    pub verbose: bool,
    pub json: bool,
    pub content_buf: String,
    pub reasoning_buf: String,
}

impl CodingEventRenderer {
    pub fn new(verbose: bool, json: bool) -> (r: CodingEventRenderer)
        ensures
            r.verbose == verbose,
            r.json == json,
            r.content_buf@ == Seq::<char>::empty(),
            r.reasoning_buf@ == Seq::<char>::empty(),
    {
        CodingEventRenderer { verbose, json, content_buf: String::new(), reasoning_buf: String::new() }
    }

    /// The writes for one event; tokens are also kept for the final report.
    pub fn render(&mut self, event: &AgentEvent) -> (r: Vec<Emit>)
        ensures
            emits_view(r@) == event_emits(
                RendererKind::Coding,
                old(self).verbose,
                old(self).json,
                old(self).reasoning_buf@,
                *event,
            ),
            final(self).content_buf@ == old(self).content_buf@ + token_text(*event),
            final(self).reasoning_buf@ == next_reasoning(old(self).reasoning_buf@, *event),
            final(self).verbose == old(self).verbose,
            final(self).json == old(self).json,
    {
        let r = event_writes(RendererKind::Coding, self.verbose, self.json, &self.reasoning_buf, event);
        add_token(&mut self.content_buf, event);
        next_reasoning_buf(&mut self.reasoning_buf, event);
        r
    }

    /// Shows the buffered reasoning (verbose mode, outside JSON) and empties
    /// the buffer.
    pub fn flush_reasoning(&mut self) -> (r: Vec<Emit>)
        ensures
            emits_view(r@) == reasoning_flush(old(self).verbose, old(self).json, old(self).reasoning_buf@),
            final(self).reasoning_buf@ == Seq::<char>::empty(),
            final(self).content_buf == old(self).content_buf,
            final(self).verbose == old(self).verbose,
            final(self).json == old(self).json,
    {
        let r = reasoning_emits(self.verbose, self.json, &self.reasoning_buf);
        self.reasoning_buf = String::new();
        r
    }

    /// The closing writes: pending reasoning, then the JSON report or a
    /// newline.
    pub fn finish(&mut self, total_tokens: Option<u64>) -> (r: Vec<Emit>)
        ensures
            emits_view(r@) == finish_emits(
                old(self).verbose,
                old(self).json,
                old(self).reasoning_buf@,
                old(self).content_buf@,
                total_tokens,
            ),
            final(self).reasoning_buf@ == Seq::<char>::empty(),
            final(self).content_buf == old(self).content_buf,
    {
        let r = finish_writes(self.verbose, self.json, &self.reasoning_buf, &self.content_buf, total_tokens);
        self.reasoning_buf = String::new();
        r
    }
}

/// Renders the `run` subcommand's event stream.
pub struct LoopEventRenderer {
    pub verbose: bool,
    pub json: bool,
    pub content_buf: String,
    pub reasoning_buf: String,
}

impl LoopEventRenderer {
    pub fn new(verbose: bool, json: bool) -> (r: LoopEventRenderer)
        ensures
            r.verbose == verbose,
            r.json == json,
            r.content_buf@ == Seq::<char>::empty(),
            r.reasoning_buf@ == Seq::<char>::empty(),
    {
        LoopEventRenderer { verbose, json, content_buf: String::new(), reasoning_buf: String::new() }
    }

    pub fn render(&mut self, event: &AgentEvent) -> (r: Vec<Emit>)
        ensures
            emits_view(r@) == event_emits(
                RendererKind::Loop,
                old(self).verbose,
                old(self).json,
                old(self).reasoning_buf@,
                *event,
            ),
            final(self).content_buf@ == old(self).content_buf@ + token_text(*event),
            final(self).reasoning_buf@ == next_reasoning(old(self).reasoning_buf@, *event),
            final(self).verbose == old(self).verbose,
            final(self).json == old(self).json,
    {
        let r = event_writes(RendererKind::Loop, self.verbose, self.json, &self.reasoning_buf, event);
        add_token(&mut self.content_buf, event);
        next_reasoning_buf(&mut self.reasoning_buf, event);
        r
    }

    pub fn flush_reasoning(&mut self) -> (r: Vec<Emit>)
        ensures
            emits_view(r@) == reasoning_flush(old(self).verbose, old(self).json, old(self).reasoning_buf@),
            final(self).reasoning_buf@ == Seq::<char>::empty(),
            final(self).content_buf == old(self).content_buf,
            final(self).verbose == old(self).verbose,
            final(self).json == old(self).json,
    {
        let r = reasoning_emits(self.verbose, self.json, &self.reasoning_buf);
        self.reasoning_buf = String::new();
        r
    }

    pub fn finish(&mut self, total_tokens: Option<u64>) -> (r: Vec<Emit>)
        ensures
            emits_view(r@) == finish_emits(
                old(self).verbose,
                old(self).json,
                old(self).reasoning_buf@,
                old(self).content_buf@,
                total_tokens,
            ),
            final(self).reasoning_buf@ == Seq::<char>::empty(),
            final(self).content_buf == old(self).content_buf,
    {
        let r = finish_writes(self.verbose, self.json, &self.reasoning_buf, &self.content_buf, total_tokens);
        self.reasoning_buf = String::new();
        r
    }
}

/// The assistant text of a run: every token, in order.
pub fn extract_content(events: &Vec<AgentEvent>) -> (r: String)
    ensures
        r@ == content_of(events@),
{
    let mut buf = String::new();
    for i in 0..events.len()
        invariant
            buf@ == content_of(events@.take(i as int)),
    {
        assert(events@.take(i + 1).drop_last() =~= events@.take(i as int));
        add_token(&mut buf, &events[i]);
    }
    assert(events@.take(events.len() as int) =~= events@);
    buf
}

/// The tool calls a run asked for, in order.
pub open spec fn calls_of(events: Seq<AgentEvent>) -> Seq<CallView>
    decreases events.len(),
{
    if events.len() == 0 {
        seq![]
    } else {
        calls_of(events.drop_last()) + match events.last() {
            AgentEvent::ToolCallRequired { calls } => calls_view(calls@),
            _ => seq![],
        }
    }
}

/// The tool results of a run, in order: the call and its output.
pub open spec fn results_of(events: Seq<AgentEvent>) -> Seq<(CallView, Seq<char>)>
    decreases events.len(),
{
    if events.len() == 0 {
        seq![]
    } else {
        results_of(events.drop_last()) + match events.last() {
            AgentEvent::ToolResult { call, result } => seq![(call_view(call), result@)],
            _ => seq![],
        }
    }
}

/// The assistant's message of a turn: its text, and the tool calls it made
/// (none recorded when it made none).
pub open spec fn assistant_message(m: SessionMessage, content: Seq<char>, calls: Seq<CallView>) -> bool {
    &&& m.role@ == "assistant"@
    &&& m.content@ == content
    &&& m.reasoning_content is None
    &&& m.tool_call_id is None
    &&& m.name is None
    &&& if calls.len() == 0 {
        m.tool_calls is None
    } else {
        m.tool_calls matches Some(v) && stored_calls_view(v@) == calls
    }
}

/// A tool result as a message of role `tool`, naming the call it answers.
pub open spec fn tool_message(m: SessionMessage, call: CallView, result: Seq<char>) -> bool {
    &&& m.role@ == "tool"@
    &&& m.content@ == result
    &&& m.reasoning_content is None
    &&& m.tool_calls is None
    &&& opt_view(m.tool_call_id) == Some(call.0)
    &&& opt_view(m.name) == Some(call.1)
}

/// What a run adds to its session after the prompt: the assistant's reply
/// (every token) with the tool calls it made, then one `tool` message per
/// tool result, in order.
pub open spec fn turn_of(events: Seq<AgentEvent>, r: Seq<SessionMessage>) -> bool {
    &&& r.len() == 1 + results_of(events).len()
    &&& assistant_message(r[0], content_of(events), calls_of(events))
    &&& forall|i: int|
        0 <= i < results_of(events).len() ==> tool_message(
            #[trigger] r[i + 1],
            results_of(events)[i].0,
            results_of(events)[i].1,
        )
}

fn stored_call(c: &ToolCall) -> (r: SessionToolCall)
    ensures
        (r.id@, r.name@, r.arguments@) == call_view(*c),
{
    SessionToolCall { id: c.id.clone(), name: c.name.clone(), arguments: c.arguments.clone() }
}

/// The messages a run adds to its session after the prompt (see `turn_of`).
pub fn turn_messages(events: &Vec<AgentEvent>) -> (r: Vec<SessionMessage>)
    ensures
        turn_of(events@, r@),
{
    let mut calls: Vec<SessionToolCall> = Vec::new();
    let mut tools: Vec<SessionMessage> = Vec::new();
    for i in 0..events.len()
        invariant
            stored_calls_view(calls@) == calls_of(events@.take(i as int)),
            tools@.len() == results_of(events@.take(i as int)).len(),
            forall|j: int|
                0 <= j < tools@.len() ==> tool_message(
                    #[trigger] tools@[j],
                    results_of(events@.take(i as int))[j].0,
                    results_of(events@.take(i as int))[j].1,
                ),
    {
        let ghost pre = events@.take(i as int);
        assert(events@.take(i + 1).drop_last() =~= pre);
        let ghost rs = results_of(pre);
        match &events[i] {
            AgentEvent::ToolCallRequired { calls: cs } => {
                let ghost before = stored_calls_view(calls@);
                for j in 0..cs.len()
                    invariant
                        stored_calls_view(calls@) == before + calls_view(cs@).take(j as int),
                {
                    let c = stored_call(&cs[j]);
                    let ghost old_calls = calls@;
                    calls.push(c);
                    let ghost want = before + calls_view(cs@).take(j + 1);
                    assert(stored_calls_view(old_calls) == before + calls_view(cs@).take(j as int));
                    assert(calls@ == old_calls.push(c));
                    assert(stored_calls_view(old_calls).len() == old_calls.len());
                    assert(want.len() == old_calls.len() + 1);
                    assert forall|k: int| 0 <= k < want.len() implies #[trigger] stored_calls_view(calls@)[k] == want[k] by {
                        if k < old_calls.len() {
                            assert(calls@[k] == old_calls[k]);
                            assert(stored_calls_view(old_calls)[k] == want[k]);
                        } else {
                            assert(calls@[k] == c);
                        }
                    }
                    assert(stored_calls_view(calls@) =~= want);
                }
                assert(calls_view(cs@).take(cs.len() as int) =~= calls_view(cs@));
            },
            AgentEvent::ToolResult { call, result } => {
                let m = SessionMessage {
                    role: "tool".to_owned(),
                    content: result.clone(),
                    reasoning_content: None,
                    tool_calls: None,
                    tool_call_id: Some(call.id.clone()),
                    name: Some(call.name.clone()),
                };
                proof {
                    reveal_strlit("tool");
                }
                tools.push(m);
                let ghost now = results_of(events@.take(i + 1));
                assert(now =~= rs.push((call_view(*call), result@)));
                assert forall|j: int| 0 <= j < tools@.len() implies tool_message(
                    #[trigger] tools@[j],
                    now[j].0,
                    now[j].1,
                ) by {
                    if j < rs.len() {
                        assert(now[j] == rs[j]);
                    }
                }
            },
            _ => {
                assert(calls_of(events@.take(i + 1)) =~= calls_of(pre));
                assert(results_of(events@.take(i + 1)) =~= rs);
            },
        }
    }
    assert(events@.take(events.len() as int) =~= events@);
    let content = extract_content(events);
    let tool_calls = if calls.len() == 0 {
        None
    } else {
        Some(calls)
    };
    let reply = SessionMessage {
        role: "assistant".to_owned(),
        content,
        reasoning_content: None,
        tool_calls,
        tool_call_id: None,
        name: None,
    };
    proof {
        reveal_strlit("assistant");
    }
    let mut r: Vec<SessionMessage> = Vec::new();
    r.push(reply);
    let ghost tv = tools@;
    r.append(&mut tools);
    proof {
        assert forall|i: int| 0 <= i < results_of(events@).len() implies tool_message(
            #[trigger] r@[i + 1],
            results_of(events@)[i].0,
            results_of(events@)[i].1,
        ) by {
            assert(r@[i + 1] == tv[i]);
        }
    }
    r
}

/// Everything a renderer of the given kind writes for a whole run, the
/// closing writes included.
fn render_all(kind: RendererKind, events: &Vec<AgentEvent>, total_tokens: Option<u64>, verbose: bool, json: bool) -> (r:
    Vec<Emit>)
    ensures
        emits_view(r@) == run_emits(kind, verbose, json, events@) + finish_emits(
            verbose,
            json,
            reasoning_after(events@),
            content_of(events@),
            total_tokens,
        ),
{
    let mut out: Vec<Emit> = Vec::new();
    let mut content = String::new();
    let mut reasoning = String::new();
    for i in 0..events.len()
        invariant
            emits_view(out@) == run_emits(kind, verbose, json, events@.take(i as int)),
            content@ == content_of(events@.take(i as int)),
            reasoning@ == reasoning_after(events@.take(i as int)),
    {
        assert(events@.take(i + 1).drop_last() =~= events@.take(i as int));
        let w = event_writes(kind, verbose, json, &reasoning, &events[i]);
        append_emits(&mut out, w);
        add_token(&mut content, &events[i]);
        next_reasoning_buf(&mut reasoning, &events[i]);
    }
    assert(events@.take(events.len() as int) =~= events@);
    let tail = finish_writes(verbose, json, &reasoning, &content, total_tokens);
    append_emits(&mut out, tail);
    out
}

/// The `code` subcommand's output for a run that was not streamed.
pub fn render_events(events: &Vec<AgentEvent>, total_tokens: Option<u64>, verbose: bool, json: bool) -> (r:
    Vec<Emit>)
    ensures
        emits_view(r@) == run_emits(RendererKind::Coding, verbose, json, events@) + finish_emits(
            verbose,
            json,
            reasoning_after(events@),
            content_of(events@),
            total_tokens,
        ),
{
    render_all(RendererKind::Coding, events, total_tokens, verbose, json)
}

/// The `run` subcommand's output for a run that was not streamed.
pub fn display_events(events: &Vec<AgentEvent>, total_tokens: Option<u64>, verbose: bool, json: bool) -> (r:
    Vec<Emit>)
    ensures
        emits_view(r@) == run_emits(RendererKind::Loop, verbose, json, events@) + finish_emits(
            verbose,
            json,
            reasoning_after(events@),
            content_of(events@),
            total_tokens,
        ),
{
    render_all(RendererKind::Loop, events, total_tokens, verbose, json)
}

// ---------------------------------------------------------------------------
// What reaches the console over a whole run.
// ---------------------------------------------------------------------------

/// The text of every write to stdout, in order.
pub open spec fn stdout_text(es: Seq<EmitView>) -> Seq<char>
    decreases es.len(),
{
    if es.len() == 0 {
        seq![]
    } else {
        let e = es.last();
        stdout_text(es.drop_last()) + if e.0 == Stream::Stdout {
            e.1 + e.2 + e.4
        } else {
            seq![]
        }
    }
}

pub proof fn lemma_stdout_text_append(a: Seq<EmitView>, b: Seq<EmitView>)
    ensures
        stdout_text(a + b) == stdout_text(a) + stdout_text(b),
    decreases b.len(),
{
    if b.len() == 0 {
        assert(a + b =~= a);
        assert(stdout_text(a) + stdout_text(b) =~= stdout_text(a));
    } else {
        lemma_stdout_text_append(a, b.drop_last());
        assert((a + b).drop_last() =~= a + b.drop_last());
        assert((a + b).last() == b.last());
        let t = if b.last().0 == Stream::Stdout {
            b.last().1 + b.last().2 + b.last().4
        } else {
            seq![]
        };
        assert(stdout_text(a) + stdout_text(b.drop_last()) + t =~= stdout_text(a) + (stdout_text(
            b.drop_last(),
        ) + t));
    }
}

proof fn lemma_stdout_one(e: EmitView)
    ensures
        stdout_text(seq![e]) == if e.0 == Stream::Stdout {
            e.1 + e.2 + e.4
        } else {
            seq![]
        },
{
    reveal_with_fuel(stdout_text, 2);
    assert(seq![e].drop_last() =~= Seq::<EmitView>::empty());
    assert(seq![e].last() == e);
    assert(Seq::<char>::empty() + (if e.0 == Stream::Stdout {
        e.1 + e.2 + e.4
    } else {
        seq![]
    }) =~= (if e.0 == Stream::Stdout {
        e.1 + e.2 + e.4
    } else {
        seq![]
    }));
}

proof fn lemma_flush_no_stdout(verbose: bool, json: bool, buf: Seq<char>)
    ensures
        stdout_text(reasoning_flush(verbose, json, buf)) == Seq::<char>::empty(),
{
    if verbose && !json && buf.len() > 0 {
        lemma_stdout_one(notice(seq![], "reasoning:"@, Tone::Dimmed, " "@ + trim(buf) + "\n"@));
    }
}

proof fn lemma_event_stdout(kind: RendererKind, verbose: bool, json: bool, r: Seq<char>, e: AgentEvent)
    ensures
        stdout_text(event_emits(kind, verbose, json, r, e)) == if json {
            Seq::<char>::empty()
        } else {
            token_text(e)
        },
{
    let chatty = verbose && !json;
    lemma_flush_no_stdout(verbose, json, r);
    match e {
        AgentEvent::Token { text } => {
            if !json {
                lemma_stdout_one(printed(text@));
                assert(text@ + Seq::<char>::empty() + Seq::<char>::empty() =~= text@);
            }
        },
        AgentEvent::Reasoning { .. } => {},
        AgentEvent::ToolCallRequired { calls } => {
            let more = if chatty {
                seq![tool_calls_notice(kind, calls@.len())]
            } else {
                seq![]
            };
            lemma_stdout_text_append(reasoning_flush(verbose, json, r), more);
            if chatty {
                lemma_stdout_one(tool_calls_notice(kind, calls@.len()));
            }
            assert(Seq::<char>::empty() + Seq::<char>::empty() =~= Seq::<char>::empty());
        },
        AgentEvent::ToolResult { call, result } => {
            if chatty {
                lemma_stdout_one(
                    notice(
                        "\n"@,
                        "tool"@,
                        Tone::Dimmed,
                        " "@ + call.name@ + " -> "@ + preview(kind, result@) + "\n"@,
                    ),
                );
            }
        },
        AgentEvent::Done { usage } => {
            let more = if chatty && usage is Some {
                seq![usage_notice(kind, usage->0)]
            } else {
                seq![]
            };
            lemma_stdout_text_append(reasoning_flush(verbose, json, r), more);
            if chatty && usage is Some {
                lemma_stdout_one(usage_notice(kind, usage->0));
            }
            assert(Seq::<char>::empty() + Seq::<char>::empty() =~= Seq::<char>::empty());
        },
        AgentEvent::Error { message } => {
            let n = notice(seq![], "error:"@, Tone::Red, " "@ + message@ + "\n"@);
            lemma_stdout_text_append(reasoning_flush(verbose, json, r), seq![n]);
            lemma_stdout_one(n);
            assert(Seq::<char>::empty() + Seq::<char>::empty() =~= Seq::<char>::empty());
        },
    }
}

proof fn lemma_run_stdout(kind: RendererKind, verbose: bool, json: bool, events: Seq<AgentEvent>)
    ensures
        stdout_text(run_emits(kind, verbose, json, events)) == if json {
            Seq::<char>::empty()
        } else {
            content_of(events)
        },
    decreases events.len(),
{
    if events.len() > 0 {
        lemma_run_stdout(kind, verbose, json, events.drop_last());
        let prev = run_emits(kind, verbose, json, events.drop_last());
        let step = event_emits(kind, verbose, json, reasoning_after(events.drop_last()), events.last());
        lemma_stdout_text_append(prev, step);
        lemma_event_stdout(kind, verbose, json, reasoning_after(events.drop_last()), events.last());
        assert(Seq::<char>::empty() + Seq::<char>::empty() =~= Seq::<char>::empty());
    } else {
        assert(stdout_text(Seq::<EmitView>::empty()) == Seq::<char>::empty());
    }
}

/// Law: over a whole run, a renderer writes to stdout exactly the assistant's
/// text (the same text that `extract_content` saves to the session) followed
/// by a newline; in JSON mode it writes only the JSON report of that text.
pub proof fn law_stdout_is_the_content(
    kind: RendererKind,
    verbose: bool,
    json: bool,
    events: Seq<AgentEvent>,
    total: Option<u64>,
)
    ensures
        stdout_text(
            run_emits(kind, verbose, json, events) + finish_emits(
                verbose,
                json,
                reasoning_after(events),
                content_of(events),
                total,
            ),
        ) == if json {
            json_report(content_of(events), total_or_zero(total)) + "\n"@
        } else {
            content_of(events) + "\n"@
        },
{
    let run = run_emits(kind, verbose, json, events);
    let r = reasoning_after(events);
    let c = content_of(events);
    let last = if json {
        seq![printed(json_report(c, total_or_zero(total)) + "\n"@)]
    } else {
        seq![printed("\n"@)]
    };
    lemma_stdout_text_append(run, finish_emits(verbose, json, r, c, total));
    lemma_stdout_text_append(reasoning_flush(verbose, json, r), last);
    lemma_flush_no_stdout(verbose, json, r);
    lemma_run_stdout(kind, verbose, json, events);
    lemma_stdout_one(last[0]);
    assert(last =~= seq![last[0]]);
    if json {
        assert(Seq::<char>::empty() + (Seq::<char>::empty() + ((json_report(c, total_or_zero(total))
            + "\n"@) + Seq::<char>::empty() + Seq::<char>::empty())) =~= json_report(
            c,
            total_or_zero(total),
        ) + "\n"@);
    } else {
        assert(c + (Seq::<char>::empty() + ("\n"@ + Seq::<char>::empty() + Seq::<char>::empty()))
            =~= c + "\n"@);
    }
}

/// Law: in JSON mode, the only writes made while events are rendered are
/// error notices on stderr.
pub proof fn law_json_mode_only_reports_errors(kind: RendererKind, verbose: bool, events: Seq<AgentEvent>)
    ensures
        forall|i: int|
            0 <= i < run_emits(kind, verbose, true, events).len() ==> (#[trigger] run_emits(
                kind,
                verbose,
                true,
                events,
            )[i]).0 == Stream::Stderr && run_emits(kind, verbose, true, events)[i].2 == "error:"@,
    decreases events.len(),
{
    if events.len() > 0 {
        law_json_mode_only_reports_errors(kind, verbose, events.drop_last());
        let prev = run_emits(kind, verbose, true, events.drop_last());
        let step = event_emits(kind, verbose, true, reasoning_after(events.drop_last()), events.last());
        assert(reasoning_flush(verbose, true, reasoning_after(events.drop_last())) =~= Seq::<
            EmitView,
        >::empty());
        assert forall|i: int| 0 <= i < step.len() implies (#[trigger] step[i]).0 == Stream::Stderr
            && step[i].2 == "error:"@ by {
            match events.last() {
                AgentEvent::Error { message } => {
                    assert(step =~= seq![
                        notice(seq![], "error:"@, Tone::Red, " "@ + message@ + "\n"@),
                    ]);
                },
                _ => {},
            }
        }
        let all = run_emits(kind, verbose, true, events);
        assert(all == prev + step);
        assert forall|i: int| 0 <= i < all.len() implies (#[trigger] all[i]).0 == Stream::Stderr
            && all[i].2 == "error:"@ by {
            if i < prev.len() {
                assert(all[i] == prev[i]);
            } else {
                assert(all[i] == step[i - prev.len()]);
            }
        }
    }
}

} // verus!
