//! The terminal UI's transcript model: chat messages, tool calls shown in
//! the transcript, slash-command suggestions and the search state.

use crate::agent::Role;
use crate::session::opt_view;
use crate::text::eq_str;
use crate::text::{
    byte_len, byte_prefix, bytes_prefix_count, chars_of, contains, contains_str, extend_chars,
    extend_str, lemma_byte_len_prefix_mono, lemma_bytes_prefix_count, lower, starts_with,
    starts_with_str, string_of, to_lower, trim, trim_chars, trim_end, trim_end_chars, trim_start,
    trim_start_chars, words,
};
use vstd::prelude::*;

verus! {

/// How a tool call is going.
#[derive(Clone, Copy, Debug, PartialEq, Eq, Structural)]
pub enum ToolStatus {
    Running,
    Done,
    Error,
}

/// A file as it was before a tool wrote to it; `content` is `None` when the
/// file did not exist.
#[derive(Debug)]
pub struct FileSnapshot {
    pub path: String,
    pub content: Option<String>,
}

/// The unified diff a tool call made to a file.
#[derive(Debug)]
pub struct FileDiffDisplay {
    pub path: String,
    pub text: String,
}

/// A tool call as the transcript shows it.
#[derive(Debug)]
pub struct ToolDisplay {
    pub call_id: String,
    pub name: String,
    pub arguments: String,
    pub result: Option<String>,
    pub file_diff: Option<FileDiffDisplay>,
    pub file_before: Option<FileSnapshot>,
    pub status: ToolStatus,
}

/// One message of the transcript.
#[derive(Debug)]
pub struct ChatMessage {
    pub role: Role,
    pub content: String,
    pub reasoning: Option<String>,
    pub collapsed: bool,
    pub reasoning_collapsed: bool,
    pub tool: Option<ToolDisplay>,
}

impl ChatMessage {
    /// A plain message: expanded, its reasoning collapsed, no tool call.
    pub fn new(role: Role, content: String) -> (r: ChatMessage)
        ensures
            r.role == role,
            r.content == content,
            r.reasoning is None,
            !r.collapsed,
            r.reasoning_collapsed,
            r.tool is None,
    {
        ChatMessage {
            role,
            content,
            reasoning: None,
            collapsed: false,
            reasoning_collapsed: true,
            tool: None,
        }
    }

    /// A collapsed tool message for a call that is still running.
    pub fn tool_call(call_id: String, name: String, arguments: String) -> (r: ChatMessage)
        ensures
            r.role == Role::Tool,
            r.content@ == Seq::<char>::empty(),
            r.reasoning is None,
            r.collapsed,
            r.reasoning_collapsed,
            r.tool is Some,
            r.tool->0.call_id == call_id,
            r.tool->0.name == name,
            r.tool->0.arguments == arguments,
            r.tool->0.result is None,
            r.tool->0.file_diff is None,
            r.tool->0.file_before is None,
            r.tool->0.status == ToolStatus::Running,
    {
        let mut message = ChatMessage::new(Role::Tool, String::new());
        message.collapsed = true;
        message.tool = Some(
            ToolDisplay {
                call_id,
                name,
                arguments,
                result: None,
                file_diff: None,
                file_before: None,
                status: ToolStatus::Running,
            },
        );
        message
    }
}

// ---------------------------------------------------------------------------
// Tool results.
// ---------------------------------------------------------------------------

/// A tool result that reports a failure: after leading whitespace and
/// ignoring ASCII case, it starts with `error` or `sandbox violation`, or
/// mentions `permission denied` or `timed out`.
pub open spec fn is_failure_text(result: Seq<char>) -> bool {
    let t = lower(trim_start(result));
    starts_with(t, "error"@) || starts_with(t, "sandbox violation"@) || contains(
        t,
        "permission denied"@,
    ) || contains(t, "timed out"@)
}

pub open spec fn result_status(result: Option<Seq<char>>) -> ToolStatus {
    match result {
        Some(r) => if is_failure_text(r) {
            ToolStatus::Error
        } else {
            ToolStatus::Done
        },
        None => ToolStatus::Done,
    }
}

/// The status a finished tool call gets from its result (none counts as an
/// empty result).
pub fn tool_result_status(result: Option<&str>) -> (r: ToolStatus)
    ensures
        r == result_status(
            match result {
                Some(s) => Some(s@),
                None => None,
            },
        ),
{
    match result {
        Some(s) => {
            let c = chars_of(s);
            let t = to_lower(&trim_start_chars(&c));
            if starts_with_str(&t, "error") || starts_with_str(&t, "sandbox violation")
                || contains_str(&t, "permission denied") || contains_str(&t, "timed out") {
                ToolStatus::Error
            } else {
                ToolStatus::Done
            }
        },
        None => ToolStatus::Done,
    }
}

/// Longest tool result shown in full, in bytes.
pub const TOOL_RESULT_LIMIT: usize = 4000;

/// A tool result as the transcript shows it: whole when its UTF-8 form fits
/// in the limit, otherwise its longest prefix that fits and a truncation
/// note.
pub open spec fn trimmed_result(result: Seq<char>) -> Seq<char> {
    if byte_len(result) <= TOOL_RESULT_LIMIT {
        result
    } else {
        result.take(bytes_prefix_count(result, TOOL_RESULT_LIMIT as nat) as int)
            + "\n...[tool output truncated]"@
    }
}

pub fn trim_tool_result(result: &str) -> (r: String)
    ensures
        r@ == trimmed_result(result@),
{
    let c = chars_of(result);
    let p = byte_prefix(&c, TOOL_RESULT_LIMIT);
    proof {
        lemma_bytes_prefix_count(c@, TOOL_RESULT_LIMIT as nat);
        let k = bytes_prefix_count(c@, TOOL_RESULT_LIMIT as nat);
        assert(c@.take(c@.len() as int) =~= c@);
        if k < c@.len() {
            lemma_byte_len_prefix_mono(c@, k as int + 1, c@.len() as int);
        }
    }
    if p.len() == c.len() {
        result.to_owned()
    } else {
        let mut t = p;
        extend_str(&mut t, "\n...[tool output truncated]");
        string_of(&t)
    }
}

/// How serde_json re-serialises a JSON document in compact form; `None`
/// when the text is not JSON.
pub uninterp spec fn json_compact(text: Seq<char>) -> Option<Seq<char>>;

/// serde_json `from_str::<Value>` then `Value::to_string`: the compact form
/// of a JSON document, or `None` when parsing fails.
#[verifier::external_body]
fn json_compact_text(text: &str) -> (r: Option<String>)
    ensures
        opt_view(r) == json_compact(text@),
{
    match serde_json::from_str::<serde_json::Value>(text) {
        Ok(value) => Some(value.to_string()),
        Err(_) => None,
    }
}

/// Tool arguments as one line: the trimmed text, in compact JSON form when
/// it is JSON.
pub open spec fn compact_arguments(raw: Seq<char>) -> Seq<char> {
    let t = trim(raw);
    if t.len() == 0 {
        seq![]
    } else {
        match json_compact(t) {
            Some(c) => c,
            None => t,
        }
    }
}

pub fn compact_json(raw: &str) -> (r: String)
    ensures
        r@ == compact_arguments(raw@),
{
    let c = chars_of(raw);
    let t = trim_chars(&c);
    if t.len() == 0 {
        return String::new();
    }
    let ts = string_of(&t);
    match json_compact_text(ts.as_str()) {
        Some(v) => v,
        None => ts,
    }
}

pub open spec fn status_text(status: ToolStatus, elapsed: Seq<char>) -> Seq<char> {
    match status {
        ToolStatus::Running => "running"@,
        ToolStatus::Done => "done in "@ + elapsed,
        ToolStatus::Error => "error after "@ + elapsed,
    }
}

/// The text of a tool message: the call, its status, and the (trimmed)
/// result once there is one. `elapsed` is the call's duration as shown.
pub open spec fn tool_content(
    name: Seq<char>,
    arguments: Seq<char>,
    status: ToolStatus,
    elapsed: Seq<char>,
    result: Option<Seq<char>>,
) -> Seq<char> {
    let head = name + " "@ + compact_arguments(arguments) + "\nstatus: "@ + status_text(status, elapsed);
    match result {
        Some(r) => head + "\n"@ + trimmed_result(r),
        None => head,
    }
}

pub fn tool_display_content(tool: &ToolDisplay, elapsed: &str) -> (r: String)
    ensures
        r@ == tool_content(
            tool.name@,
            tool.arguments@,
            tool.status,
            elapsed@,
            opt_view(tool.result),
        ),
{
    let mut v = chars_of(tool.name.as_str());
    extend_str(&mut v, " ");
    let args = compact_json(tool.arguments.as_str());
    extend_str(&mut v, args.as_str());
    extend_str(&mut v, "\nstatus: ");
    match tool.status {
        ToolStatus::Running => extend_str(&mut v, "running"),
        ToolStatus::Done => {
            extend_str(&mut v, "done in ");
            extend_str(&mut v, elapsed);
        },
        ToolStatus::Error => {
            extend_str(&mut v, "error after ");
            extend_str(&mut v, elapsed);
        },
    }
    match &tool.result {
        Some(res) => {
            extend_str(&mut v, "\n");
            let t = trim_tool_result(res.as_str());
            extend_str(&mut v, t.as_str());
        },
        None => {},
    }
    string_of(&v)
}

/// A short duration below one second, as the transcript shows it: `Nms`.
pub open spec fn millis_text(millis: nat) -> Seq<char> {
    crate::text::decimal(millis) + "ms"@
}

pub fn format_millis(millis: u64) -> (r: String)
    requires
        millis < 1000,
    ensures
        r@ == millis_text(millis as nat),
{
    let mut v = crate::text::decimal_chars(millis as u128);
    extend_str(&mut v, "ms");
    string_of(&v)
}

// ---------------------------------------------------------------------------
// Searching and sizing messages.
// ---------------------------------------------------------------------------

/// The text `/find` searches in a message: in transcript mode its
/// reasoning, when there is some, follows the content on a new line.
pub open spec fn search_text(content: Seq<char>, reasoning: Option<Seq<char>>, transcript_mode: bool) -> Seq<
    char,
> {
    if transcript_mode && reasoning is Some && reasoning->0.len() > 0 {
        content + "\n"@ + reasoning->0
    } else {
        content
    }
}

pub fn message_search_content(msg: &ChatMessage, transcript_mode: bool) -> (r: String)
    ensures
        r@ == search_text(msg.content@, opt_view(msg.reasoning), transcript_mode),
{
    if transcript_mode {
        match &msg.reasoning {
            Some(reasoning) => {
                let rc = chars_of(reasoning.as_str());
                if rc.len() > 0 {
                    let mut v = chars_of(msg.content.as_str());
                    extend_str(&mut v, "\n");
                    extend_chars(&mut v, &rc);
                    return string_of(&v);
                }
            },
            None => {},
        }
    }
    msg.content.clone()
}

/// The number of `\n` in a text.
pub open spec fn newlines(s: Seq<char>) -> nat
    decreases s.len(),
{
    if s.len() == 0 {
        0
    } else {
        newlines(s.drop_last()) + if s.last() == '\n' {
            1nat
        } else {
            0
        }
    }
}

/// How many lines `str::lines` yields: none for an empty text, and a final
/// line ending does not start another line.
pub open spec fn line_count(s: Seq<char>) -> nat {
    if s.len() == 0 {
        0
    } else if s.last() == '\n' {
        newlines(s)
    } else {
        newlines(s) + 1
    }
}

proof fn lemma_newlines_bound(s: Seq<char>)
    ensures
        newlines(s) <= s.len(),
    decreases s.len(),
{
    if s.len() > 0 {
        lemma_newlines_bound(s.drop_last());
    }
}

pub fn count_lines(s: &str) -> (r: usize)
    ensures
        r == line_count(s@),
{
    let c = chars_of(s);
    let mut n: usize = 0;
    for i in 0..c.len()
        invariant
            n == newlines(c@.take(i as int)),
            n <= i,
    {
        assert(c@.take(i + 1).drop_last() =~= c@.take(i as int));
        if c[i] == '\n' {
            n += 1;
        }
    }
    assert(c@.take(c.len() as int) =~= c@);
    if c.len() == 0 || c[c.len() - 1] == '\n' {
        n
    } else {
        proof {
            lemma_newlines_bound(c@.drop_last());
        }
        n + 1
    }
}

pub open spec fn sat_add(a: nat, b: nat) -> nat {
    if a + b > usize::MAX {
        usize::MAX as nat
    } else {
        a + b
    }
}

pub open spec fn at_least_one(n: nat) -> nat {
    if n == 0 {
        1
    } else {
        n
    }
}

/// A message's estimated height in transcript rows: its content lines (at
/// least one), its reasoning lines, and one separator row.
pub open spec fn message_rows(content: Seq<char>, reasoning: Option<Seq<char>>) -> nat {
    let r = match reasoning {
        Some(t) => line_count(t),
        None => 0,
    };
    sat_add(sat_add(at_least_one(line_count(content)), r), 1)
}

pub fn estimated_message_rows(msg: &ChatMessage) -> (r: usize)
    ensures
        r == message_rows(msg.content@, opt_view(msg.reasoning)),
{
    let content_rows = count_lines(msg.content.as_str());
    let content_rows = if content_rows == 0 {
        1
    } else {
        content_rows
    };
    let reasoning_rows = match &msg.reasoning {
        Some(r) => count_lines(r.as_str()),
        None => 0,
    };
    content_rows.saturating_add(reasoning_rows).saturating_add(1)
}

/// A tool message's height before it is collapsed: its content lines (at
/// least one) plus, with a diff, the diff's lines and three more.
pub open spec fn tool_rows(content: Seq<char>, diff: Option<Seq<char>>) -> nat {
    let d = match diff {
        Some(t) => sat_add(line_count(t), 3),
        None => 0,
    };
    sat_add(at_least_one(line_count(content)), d)
}

pub open spec fn diff_text_of(tool: Option<ToolDisplay>) -> Option<Seq<char>> {
    match tool {
        Some(t) => match t.file_diff {
            Some(d) => Some(d.text@),
            None => None,
        },
        None => None,
    }
}

pub fn tool_message_row_count(msg: &ChatMessage) -> (r: usize)
    ensures
        r == tool_rows(msg.content@, diff_text_of(msg.tool)),
{
    let diff_rows = match &msg.tool {
        Some(tool) => match &tool.file_diff {
            Some(d) => count_lines(d.text.as_str()).saturating_add(3),
            None => 0,
        },
        None => 0,
    };
    let c = count_lines(msg.content.as_str());
    let c = if c == 0 {
        1
    } else {
        c
    };
    c.saturating_add(diff_rows)
}

// ---------------------------------------------------------------------------
// Slash commands.
// ---------------------------------------------------------------------------

/// A slash command as the suggestion list shows it.
#[derive(Clone, Copy, Debug)]
pub struct SlashSuggestion {
    pub command: &'static str,
    pub description: &'static str,
}

/// The first word of a command's usage line.
pub open spec fn command_name(command: Seq<char>) -> Seq<char> {
    if words(command).len() > 0 {
        words(command)[0]
    } else {
        command
    }
}

/// Index of the first `<` in a command's usage line.
pub open spec fn first_angle(s: Seq<char>) -> Option<int>
    decreases s.len(),
{
    if s.len() == 0 {
        None
    } else if s[0] == '<' {
        Some(0)
    } else {
        match first_angle(s.drop_first()) {
            Some(k) => Some(k + 1),
            None => None,
        }
    }
}

/// What accepting a suggestion puts in the input: the usage line up to its
/// first argument, trimmed, and a space; or the bare command name.
pub open spec fn command_completion(command: Seq<char>) -> Seq<char> {
    match first_angle(command) {
        Some(k) => trim_end(command.take(k)) + " "@,
        None => command_name(command),
    }
}

proof fn lemma_first_angle(s: Seq<char>, i: int)
    requires
        0 <= i <= s.len(),
        forall|j: int| 0 <= j < i ==> s[j] != '<',
    ensures
        i < s.len() && s[i] == '<' ==> first_angle(s) == Some(i),
        i == s.len() ==> first_angle(s) is None,
    decreases i,
{
    if i > 0 {
        lemma_first_angle(s.drop_first(), i - 1);
    }
}

impl SlashSuggestion {
    /// The command itself: the first word of its usage line.
    pub fn name(&self) -> (r: String)
        ensures
            r@ == command_name(self.command@),
    {
        let c = chars_of(self.command);
        let w = crate::text::split_whitespace(&c);
        if w.len() > 0 {
            string_of(&w[0])
        } else {
            self.command.to_owned()
        }
    }

    /// The text that accepting this suggestion puts in the input.
    pub fn completion(&self) -> (r: String)
        ensures
            r@ == command_completion(self.command@),
    {
        let c = chars_of(self.command);
        let mut i: usize = 0;
        while i < c.len()
            invariant
                i <= c.len(),
                c@ == self.command@,
                forall|j: int| 0 <= j < i ==> c@[j] != '<',
            decreases c.len() - i,
        {
            if c[i] == '<' {
                proof {
                    lemma_first_angle(c@, i as int);
                }
                let head = crate::text::slice_chars(&c, 0, i);
                let mut t = trim_end_chars(&head);
                extend_str(&mut t, " ");
                return string_of(&t);
            }
            i += 1;
        }
        proof {
            lemma_first_angle(c@, i as int);
        }
        self.name()
    }
}

/// The slash commands, with the usage line and description that the
/// suggestion list shows, in the order it shows them.
pub open spec fn slash_table() -> Seq<(Seq<char>, Seq<char>)> {
    seq![
        ("/help"@, "show keyboard shortcuts"@),
        ("/clear"@, "clear visible transcript"@),
        ("/new"@, "start a fresh agent context"@),
        ("/model <name>"@, "switch model or show current"@),
        ("/provider <name>"@, "set provider override or show"@),
        ("/status"@, "show current session state"@),
        ("/permissions <mode>"@, "switch sandbox mode for later turns"@),
        ("/plugins"@, "list available runtime plugins"@),
        ("/plugin <name>"@, "run a prompt through a plugin"@),
        ("/tokens"@, "show token breakdown"@),
        ("/find <text>"@, "search the visible transcript"@),
        ("/next"@, "jump to next search match"@),
        ("/prev"@, "jump to previous search match"@),
        ("/effort <off|low..max>"@, "set thinking effort level"@),
        ("/trace"@, "toggle thinking trace on/off"@),
        ("/expand"@, "expand last collapsed tool output"@),
        ("/copy"@, "copy last assistant response"@),
        ("/save"@, "force-save current session"@),
        ("/queue"@, "show or clear queued prompts"@),
        ("/sessions restore <id>"@, "list or restore a session"@),
        ("/quit"@, "exit the TUI"@)
    ]
}

pub open spec fn suggestions_view(v: Seq<SlashSuggestion>) -> Seq<(Seq<char>, Seq<char>)> {
    Seq::new(v.len(), |i: int| (v[i].command@, v[i].description@))
}

pub fn slash_commands() -> (r: Vec<SlashSuggestion>)
    ensures
        suggestions_view(r@) == slash_table(),
{
    let mut v: Vec<SlashSuggestion> = Vec::new();
    v.push(SlashSuggestion { command: "/help", description: "show keyboard shortcuts" });
    v.push(SlashSuggestion { command: "/clear", description: "clear visible transcript" });
    v.push(SlashSuggestion { command: "/new", description: "start a fresh agent context" });
    v.push(SlashSuggestion { command: "/model <name>", description: "switch model or show current" });
    v.push(SlashSuggestion { command: "/provider <name>", description: "set provider override or show" });
    v.push(SlashSuggestion { command: "/status", description: "show current session state" });
    v.push(SlashSuggestion { command: "/permissions <mode>", description: "switch sandbox mode for later turns" });
    v.push(SlashSuggestion { command: "/plugins", description: "list available runtime plugins" });
    v.push(SlashSuggestion { command: "/plugin <name>", description: "run a prompt through a plugin" });
    v.push(SlashSuggestion { command: "/tokens", description: "show token breakdown" });
    v.push(SlashSuggestion { command: "/find <text>", description: "search the visible transcript" });
    v.push(SlashSuggestion { command: "/next", description: "jump to next search match" });
    v.push(SlashSuggestion { command: "/prev", description: "jump to previous search match" });
    v.push(SlashSuggestion { command: "/effort <off|low..max>", description: "set thinking effort level" });
    v.push(SlashSuggestion { command: "/trace", description: "toggle thinking trace on/off" });
    v.push(SlashSuggestion { command: "/expand", description: "expand last collapsed tool output" });
    v.push(SlashSuggestion { command: "/copy", description: "copy last assistant response" });
    v.push(SlashSuggestion { command: "/save", description: "force-save current session" });
    v.push(SlashSuggestion { command: "/queue", description: "show or clear queued prompts" });
    v.push(SlashSuggestion { command: "/sessions restore <id>", description: "list or restore a session" });
    v.push(SlashSuggestion { command: "/quit", description: "exit the TUI" });
    assert(suggestions_view(v@) =~= slash_table());
    v
}

/// A usage line without its leading slashes.
pub open spec fn strip_slashes(s: Seq<char>) -> Seq<char>
    decreases s.len(),
{
    if s.len() > 0 && s[0] == '/' {
        strip_slashes(s.drop_first())
    } else {
        s
    }
}

/// The query an input offers for suggestions: what follows its leading
/// `/`, in lower case; none when the input does not start with `/` or holds
/// whitespace.
pub open spec fn suggestion_query(input: Seq<char>) -> Option<Seq<char>> {
    if input.len() > 0 && input[0] == '/' && forall|i: int| 0 <= i < input.len() ==> !crate::text::is_ws(#[trigger] input[i]) {
        Some(lower(input.drop_first()))
    } else {
        None
    }
}

/// The commands whose name (without slashes) starts with the query, in
/// table order.
pub open spec fn matching_commands(t: Seq<(Seq<char>, Seq<char>)>, q: Seq<char>) -> Seq<(Seq<char>, Seq<char>)>
    decreases t.len(),
{
    if t.len() == 0 {
        seq![]
    } else {
        let rest = matching_commands(t.drop_last(), q);
        if starts_with(strip_slashes(t.last().0), q) {
            rest.push(t.last())
        } else {
            rest
        }
    }
}

/// The suggestions shown for an input.
pub open spec fn suggestions_for(input: Seq<char>) -> Seq<(Seq<char>, Seq<char>)> {
    match suggestion_query(input) {
        Some(q) => matching_commands(slash_table(), q),
        None => seq![],
    }
}

fn strip_slashes_chars(s: &Vec<char>) -> (r: Vec<char>)
    ensures
        r@ == strip_slashes(s@),
{
    let mut i: usize = 0;
    assert(s@.skip(0) =~= s@);
    while i < s.len() && s[i] == '/'
        invariant
            i <= s.len(),
            strip_slashes(s@) == strip_slashes(s@.skip(i as int)),
        decreases s.len() - i,
    {
        assert(s@.skip(i as int).drop_first() =~= s@.skip(i + 1));
        i += 1;
    }
    crate::text::slice_chars(s, i, s.len())
}

pub fn suggestions_for_input(input: &Vec<char>) -> (r: Vec<SlashSuggestion>)
    ensures
        suggestions_view(r@) == suggestions_for(input@),
{
    let mut r: Vec<SlashSuggestion> = Vec::new();
    if input.len() == 0 || input[0] != '/' {
        assert(suggestions_view(r@) =~= suggestions_for(input@));
        return r;
    }
    let mut i: usize = 0;
    while i < input.len()
        invariant
            i <= input.len(),
            r@.len() == 0,
            forall|j: int| 0 <= j < i ==> !crate::text::is_ws(#[trigger] input@[j]),
        decreases input.len() - i,
    {
        if crate::text::is_whitespace(input[i]) {
            assert(crate::text::is_ws(input@[i as int]));
            assert(suggestions_view(r@) =~= suggestions_for(input@));
            return r;
        }
        i += 1;
    }
    let rest = crate::text::slice_chars(input, 1, input.len());
    assert(rest@ =~= input@.drop_first());
    let q = to_lower(&rest);
    let table = slash_commands();
    for k in 0..table.len()
        invariant
            suggestions_view(table@) == slash_table(),
            input@.len() > 0,
            q@ == lower(input@.drop_first()),
            suggestions_view(r@) == matching_commands(slash_table().take(k as int), q@),
    {
        let ghost t = slash_table().take(k + 1);
        assert(t.drop_last() =~= slash_table().take(k as int));
        assert(t.last() == (table@[k as int].command@, table@[k as int].description@));
        let name = strip_slashes_chars(&chars_of(table[k].command));
        if crate::text::starts_with_chars(&name, &q) {
            r.push(table[k]);
            assert(suggestions_view(r@) =~= matching_commands(t, q@));
        } else {
            assert(suggestions_view(r@) =~= matching_commands(t, q@));
        }
    }
    assert(slash_table().take(table.len() as int) =~= slash_table());
    r
}

/// A prompt on one line for the queue listing: its words joined by single
/// spaces, cut after `max_chars` characters with `...` when longer.
pub open spec fn summary_of(text: Seq<char>, max_chars: nat) -> Seq<char> {
    let one_line = crate::text::squash_ws(text);
    if one_line.len() > max_chars {
        one_line.take(max_chars as int) + "..."@
    } else {
        one_line
    }
}

pub fn summarize_prompt(text: &str, max_chars: usize) -> (r: String)
    ensures
        r@ == summary_of(text@, max_chars as nat),
{
    let c = chars_of(text);
    let one = crate::text::squash_whitespace(&c);
    if one.len() > max_chars {
        let mut t = crate::text::slice_chars(&one, 0, max_chars);
        extend_str(&mut t, "...");
        string_of(&t)
    } else {
        string_of(&one)
    }
}

/// The sandbox modes `/permissions` offers, in menu order.
pub open spec fn permission_mode_names() -> Seq<Seq<char>> {
    seq!["project"@, "strict"@, "permissive"@, "off"@]
}

pub fn permission_modes() -> (r: Vec<String>)
    ensures
        crate::commands::strings_view(r@) == permission_mode_names(),
{
    let mut v: Vec<String> = Vec::new();
    v.push("project".to_owned());
    v.push("strict".to_owned());
    v.push("permissive".to_owned());
    v.push("off".to_owned());
    assert(crate::commands::strings_view(v@) =~= permission_mode_names());
    v
}

/// A plugin name as typed, trimmed.
pub fn canonical_plugin_name(name: &str) -> (r: String)
    ensures
        r@ == trim(name@),
{
    let c = chars_of(name);
    string_of(&trim_chars(&c))
}

/// The system prompt of a plugin run: the coding agent's prompt, then the
/// plugin's own instructions.
pub open spec fn plugin_prompt_text(coding_prompt: Seq<char>, plugin_prompt: Seq<char>) -> Seq<char> {
    coding_prompt + "\n\nPlugin mode:\n"@ + plugin_prompt
}

/// `coding_prompt` is the coding agent's system prompt for the working
/// directory (see `coding::coding_system_prompt`).
pub fn plugin_augmented_system_prompt(coding_prompt: &str, plugin_prompt: &str) -> (r: String)
    ensures
        r@ == plugin_prompt_text(coding_prompt@, plugin_prompt@),
{
    let mut v = chars_of(coding_prompt);
    extend_str(&mut v, "\n\nPlugin mode:\n");
    extend_str(&mut v, plugin_prompt);
    string_of(&v)
}

/// The JSON context a plugin run starts from, as compact JSON text (keys in
/// order): each known plugin's own fields, filled from the prompt (and the
/// working directory for plan generation); `input` and `request` for any
/// other plugin.  `q` is the prompt as a JSON string, `w` the working
/// directory as one.
pub open spec fn plugin_context_text(name: Seq<char>, q: Seq<char>, w: Seq<char>) -> Seq<char> {
    let n = trim(name);
    if n == "CodeReview"@ || n == "code-review"@ {
        "{\"context_rules\":[],\"file_path\":\"\",\"input\":"@ + q + "}"@
    } else if n == "Refactor"@ || n == "refactor"@ {
        "{\"code\":"@ + q + ",\"instructions\":"@ + q + ",\"review\":null}"@
    } else if n == "TestGen"@ || n == "test-gen"@ {
        "{\"code\":"@ + q + ",\"focus_areas\":[],\"language\":\"\"}"@
    } else if n == "SecurityAudit"@ || n == "security-audit"@ {
        "{\"code\":"@ + q + ",\"dependencies\":[],\"threat_model\":\"\"}"@
    } else if n == "DocGen"@ || n == "doc-gen"@ {
        "{\"audience\":\"developers\",\"code\":"@ + q + ",\"doc_type\":\"technical\"}"@
    } else if n == "PlanGen"@ || n == "plan-gen"@ {
        "{\"context_rules\":[],\"project_path\":"@ + w + ",\"spec\":"@ + q + "}"@
    } else if n == "DeepResearch"@ || n == "deep-research"@ {
        "{\"depth\":\"standard\",\"query\":"@ + q + ",\"sources\":[]}"@
    } else if n == "ImageGen"@ || n == "image-gen"@ {
        "{\"dimensions\":\"\",\"prompt\":"@ + q + ",\"style\":\"\"}"@
    } else if n == "KnowledgeBase"@ || n == "knowledge-base"@ {
        "{\"kb_sources\":[],\"query\":"@ + q + "}"@
    } else if n == "PptxGen"@ || n == "pptx-gen"@ {
        "{\"outline\":[],\"template\":\"\",\"topic\":"@ + q + "}"@
    } else if n == "Verification"@ || n == "verification"@ {
        "{\"changes\":[],\"plan_task_id\":0,\"verification_steps\":["@ + q + "]}"@
    } else {
        "{\"input\":"@ + q + ",\"request\":"@ + q + "}"@
    }
}

fn named(n: &Vec<char>, a: &str, b: &str) -> (r: bool)
    ensures
        r == (n@ == a@ || n@ == b@),
{
    eq_str(n, a) || eq_str(n, b)
}

fn wrap3(a: &str, q: &String, b: &str) -> (r: String)
    ensures
        r@ == a@ + q@ + b@,
{
    let mut t = chars_of(a);
    extend_str(&mut t, q.as_str());
    extend_str(&mut t, b);
    string_of(&t)
}

fn wrap5(a: &str, q: &String, b: &str, q2: &String, c: &str) -> (r: String)
    ensures
        r@ == a@ + q@ + b@ + q2@ + c@,
{
    let mut t = chars_of(a);
    extend_str(&mut t, q.as_str());
    extend_str(&mut t, b);
    extend_str(&mut t, q2.as_str());
    extend_str(&mut t, c);
    string_of(&t)
}

/// The context a plugin run starts from, as JSON text (see
/// `plugin_context_text`).
pub fn plugin_context(name: &str, prompt: &str, workdir: &str) -> (r: String)
    ensures
        r@ == plugin_context_text(name@, crate::events::json_quoted(prompt@), crate::events::json_quoted(workdir@)),
{
    let n = trim_chars(&chars_of(name));
    let q = crate::events::json_string(prompt);
    if named(&n, "CodeReview", "code-review") {
        wrap3("{\"context_rules\":[],\"file_path\":\"\",\"input\":", &q, "}")
    } else if named(&n, "Refactor", "refactor") {
        wrap5("{\"code\":", &q, ",\"instructions\":", &q, ",\"review\":null}")
    } else if named(&n, "TestGen", "test-gen") {
        wrap3("{\"code\":", &q, ",\"focus_areas\":[],\"language\":\"\"}")
    } else if named(&n, "SecurityAudit", "security-audit") {
        wrap3("{\"code\":", &q, ",\"dependencies\":[],\"threat_model\":\"\"}")
    } else if named(&n, "DocGen", "doc-gen") {
        wrap3("{\"audience\":\"developers\",\"code\":", &q, ",\"doc_type\":\"technical\"}")
    } else if named(&n, "PlanGen", "plan-gen") {
        let w = crate::events::json_string(workdir);
        wrap5("{\"context_rules\":[],\"project_path\":", &w, ",\"spec\":", &q, "}")
    } else if named(&n, "DeepResearch", "deep-research") {
        wrap3("{\"depth\":\"standard\",\"query\":", &q, ",\"sources\":[]}")
    } else if named(&n, "ImageGen", "image-gen") {
        wrap3("{\"dimensions\":\"\",\"prompt\":", &q, ",\"style\":\"\"}")
    } else if named(&n, "KnowledgeBase", "knowledge-base") {
        wrap3("{\"kb_sources\":[],\"query\":", &q, "}")
    } else if named(&n, "PptxGen", "pptx-gen") {
        wrap3("{\"outline\":[],\"template\":\"\",\"topic\":", &q, "}")
    } else if named(&n, "Verification", "verification") {
        wrap3("{\"changes\":[],\"plan_task_id\":0,\"verification_steps\":[", &q, "]}")
    } else {
        wrap5("{\"input\":", &q, ",\"request\":", &q, "}")
    }
}

/// The loaded plugin a query names: the first name equal to the trimmed
/// query, or equal to it ignoring ASCII case.
pub fn find_plugin_name(names: &Vec<String>, query: &str) -> (r: Option<String>)
    ensures
        match r {
            Some(n) => exists|i: int|
                0 <= i < names@.len() && n@ == names@[i]@ && (names@[i]@ == trim(query@) || crate::text::lower(
                    names@[i]@,
                ) == crate::text::lower(trim(query@))) && forall|j: int|
                    0 <= j < i ==> !(names@[j]@ == trim(query@) || crate::text::lower(names@[j]@)
                        == crate::text::lower(trim(query@))),
            None => forall|i: int|
                0 <= i < names@.len() ==> !(names@[i]@ == trim(query@) || crate::text::lower(names@[i]@)
                    == crate::text::lower(trim(query@))),
        },
{
    let q = trim_chars(&chars_of(query));
    let ql = crate::text::to_lower(&q);
    let mut i: usize = 0;
    while i < names.len()
        invariant
            i <= names.len(),
            q@ == trim(query@),
            ql@ == crate::text::lower(q@),
            forall|j: int|
                0 <= j < i ==> !(names@[j]@ == trim(query@) || crate::text::lower(names@[j]@) == crate::text::lower(
                    trim(query@),
                )),
        decreases names.len() - i,
    {
        let n = chars_of(names[i].as_str());
        let nl = crate::text::to_lower(&n);
        if crate::text::eq_chars(&n, &q) || crate::text::eq_chars(&nl, &ql) {
            return Some(names[i].clone());
        }
        i += 1;
    }
    None
}

} // verus!
