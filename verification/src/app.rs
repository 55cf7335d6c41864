//! The terminal UI's application state and the transitions that key
//! presses, slash commands and the agent's stream make to it. Work that
//! leaves the process (the agent, the file system, the clipboard) is done by
//! the caller; the state machine only decides.

use crate::agent::Role;
use crate::chat::{
    permission_mode_names, permission_modes, summarize_prompt, summary_of,
    command_completion, estimated_message_rows, message_rows, message_search_content, sat_add,
    search_text, find_plugin_name, ChatMessage, SlashSuggestion,
};
use crate::chat::{
    diff_text_of, result_status, suggestions_for, suggestions_for_input, suggestions_view,
    tool_content, tool_display_content, tool_message_row_count, tool_result_status, tool_rows,
    FileDiffDisplay, FileSnapshot, ToolStatus,
};
use crate::agent::{stored_calls_view, CallView};
use crate::pointer::{capped, estimate_total};
use crate::events::{assistant_message, tool_message};
use crate::session::{
    finalize_session_exchange, new_session_id, opt_view, plain_message, title_of, Session, SessionMessage, SessionToolCall,
};
use crate::text::{
    join, join_chars, split_whitespace, vv, words, eq_str, push_text, chars_of, contains, contains_chars, decimal, decimal_chars, extend_chars, extend_str, lower,
    string_of, to_lower, trim, trim_chars,
};
use std::collections::VecDeque;
use vstd::prelude::*;

verus! {

/// Whether the UI is idle, streaming a reply, or showing an error.
#[derive(Debug)]
pub enum AppStatus {
    Ready,
    Streaming,
    Error(String),
}

/// Which choice a popup menu makes.
#[derive(Clone, Copy, Debug, PartialEq, Eq, Structural)]
pub enum MenuKind {
    Model,
    Provider,
    Permissions,
    Plugin,
}

/// A popup menu of options with a highlighted entry.
#[derive(Debug)]
pub struct MenuState {
    pub kind: MenuKind,
    pub options: Vec<String>,
    pub index: usize,
}

/// The transcript search: its query, the indices of the matching messages,
/// the current match and the message it points at.
#[derive(Debug)]
pub struct SearchState {
    pub query: String,
    pub matches: Vec<usize>,
    pub index: Option<usize>,
    pub target_message: Option<usize>,
}

impl SearchState {
    /// No search.
    pub fn cleared() -> (r: SearchState)
        ensures
            r.query@ == Seq::<char>::empty(),
            r.matches@ == Seq::<usize>::empty(),
            r.index is None,
            r.target_message is None,
    {
        SearchState { query: String::new(), matches: Vec::new(), index: None, target_message: None }
    }

    /// A search is active while it has a query.
    pub fn is_active(&self) -> (r: bool)
        ensures
            r == (self.query@.len() > 0),
    {
        let q = chars_of(self.query.as_str());
        q.len() > 0
    }

    /// The current match, counted from one, and the number of matches.
    pub fn position(&self) -> (r: Option<(usize, usize)>)
        requires
            self.index matches Some(i) ==> i < usize::MAX,
        ensures
            r == (match self.index {
                Some(i) => if self.matches@.len() > 0 {
                    Some(((i + 1) as usize, self.matches@.len() as usize))
                } else {
                    None
                },
                None => None,
            }),
    {
        match self.index {
            Some(i) => if self.matches.len() > 0 {
                Some((i + 1, self.matches.len()))
            } else {
                None
            },
            None => None,
        }
    }
}

impl Default for SearchState {
    fn default() -> (r: SearchState)
        ensures
            r.query@ == Seq::<char>::empty(),
            r.matches@ == Seq::<usize>::empty(),
            r.index is None,
            r.target_message is None,
    {
        SearchState::cleared()
    }
}

/// Whether a message matches a search query, ignoring ASCII case.
pub open spec fn is_hit(m: ChatMessage, query: Seq<char>, transcript_mode: bool) -> bool {
    contains(lower(search_text(m.content@, opt_view(m.reasoning), transcript_mode)), lower(query))
}

/// The indices of the messages that match a query, in order.
pub open spec fn hits(msgs: Seq<ChatMessage>, query: Seq<char>, transcript_mode: bool) -> Seq<usize>
    decreases msgs.len(),
{
    if msgs.len() == 0 {
        seq![]
    } else {
        let h = hits(msgs.drop_last(), query, transcript_mode);
        if is_hit(msgs.last(), query, transcript_mode) {
            h.push((msgs.len() - 1) as usize)
        } else {
            h
        }
    }
}

/// The estimated rows of a run of messages, added up (saturating).
pub open spec fn rows_total(msgs: Seq<ChatMessage>) -> nat
    decreases msgs.len(),
{
    if msgs.len() == 0 {
        0
    } else {
        sat_add(rows_total(msgs.drop_last()), message_rows(msgs.last().content@, opt_view(msgs.last().reasoning)))
    }
}

/// How far the transcript scrolls back to show a message: the rows of the
/// messages after it, and two more.
pub open spec fn scroll_for_target(msgs: Seq<ChatMessage>, target: int) -> nat {
    let from = if target + 1 > msgs.len() {
        msgs.len() as int
    } else {
        target + 1
    };
    sat_add(rows_total(msgs.skip(from)), 2)
}

pub open spec fn no_matches_text(query: Seq<char>) -> Seq<char> {
    "No matches for '"@ + query + "'."@
}

pub open spec fn search_found_text(query: Seq<char>, current: nat, total: nat) -> Seq<char> {
    "Search: '"@ + query + "' ("@ + decimal(current) + "/"@ + decimal(total) + ")."@
}

pub open spec fn queued_text(count: nat) -> Seq<char> {
    "Queued prompt #"@ + decimal(count) + ". It will run after the current response."@
}

pub open spec fn is_system_message(m: ChatMessage, text: Seq<char>) -> bool {
    &&& m.role == Role::System
    &&& m.content@ == text
    &&& m.reasoning is None
    &&& !m.collapsed
    &&& m.reasoning_collapsed
    &&& m.tool is None
}

/// The match `/next` moves to among `n` matches: the one after the
/// current, wrapping to the first; the first when there is no current one.
pub open spec fn next_match(index: Option<usize>, n: nat) -> int {
    match index {
        Some(i) => (i + 1) % (n as int),
        None => 0,
    }
}

/// The match `/prev` moves to: the one before the current, wrapping to the
/// last; the first when there is no current one.
pub open spec fn prev_match(index: Option<usize>, n: nat) -> int {
    match index {
        Some(i) => if i == 0 {
            n - 1
        } else {
            i - 1
        },
        None => 0,
    }
}

/// Law: among `n` matches, `/next` then `/prev` (and `/prev` then `/next`)
/// come back to the match they started from.
pub proof fn law_search_next_prev_round_trip(i: usize, n: nat)
    requires
        i < n,
        n <= usize::MAX,
    ensures
        prev_match(Some(next_match(Some(i), n) as usize), n) == i,
        next_match(Some(prev_match(Some(i), n) as usize), n) == i,
        0 <= next_match(Some(i), n) < n,
        0 <= prev_match(Some(i), n) < n,
{
    if i + 1 < n {
        assert((i + 1) % (n as int) == i + 1) by (nonlinear_arith)
            requires
                0 <= i + 1 < n,
        ;
    } else {
        assert((i + 1) % (n as int) == 0) by (nonlinear_arith)
            requires
                i + 1 == n,
                n > 0,
        ;
    }
    if i == 0 {
        assert(((n - 1) + 1) % (n as int) == 0) by (nonlinear_arith)
            requires
                n > 0,
        ;
    } else {
        assert(((i - 1) + 1) % (n as int) == i) by (nonlinear_arith)
            requires
                0 < i < n,
        ;
    }
}

/// The search after the transcript changed: an active search gets the
/// matches of the new transcript, and keeps its target when that still
/// matches, else moves to the first match.
pub open spec fn refreshed_search(
    before: SearchState,
    msgs: Seq<ChatMessage>,
    transcript_mode: bool,
    after: SearchState,
) -> bool {
    if before.query@.len() == 0 {
        after == before
    } else {
        let h = hits(msgs, before.query@, transcript_mode);
        let kept = match before.target_message {
            Some(t) => h.contains(t),
            None => false,
        };
        &&& after.query == before.query
        &&& after.matches@ == h
        &&& (kept ==> after.target_message == before.target_message && (after.index matches Some(
            k,
        ) && k < h.len() && h[k as int] == before.target_message->0 && (forall|j: int|
            0 <= j < k ==> h[j] != before.target_message->0)))
        &&& (!kept && h.len() > 0 ==> after.index == Some(0usize) && after.target_message == Some(
            h[0],
        ))
        &&& (!kept && h.len() == 0 ==> after.index is None && after.target_message is None)
    }
}


/// Whether a stream event carries anything to show.
pub open spec fn has_payload(content: Seq<char>, reasoning: Option<Seq<char>>, error: Option<Seq<char>>) -> bool {
    content.len() > 0 || reasoning is Some || error is Some
}

/// The message a stream event goes to: the active reply while it is in the
/// transcript, else a new reply at the end, made only for an event that
/// carries something.
pub open spec fn stream_slot(active: Option<usize>, len: nat, payload: bool) -> Option<int> {
    if active is Some && active->0 < len {
        Some(active->0 as int)
    } else if payload {
        Some(len as int)
    } else {
        None
    }
}

/// A reply's text after an error: the error line replaces an empty text,
/// is left out when the text already holds it, and otherwise goes on a line
/// of its own.
pub open spec fn with_error(content: Seq<char>, error: Option<Seq<char>>) -> Seq<char> {
    match error {
        None => content,
        Some(e) => {
            let t = "Error: "@ + e;
            if content.len() == 0 {
                t
            } else if contains(content, t) {
                content
            } else if content.last() != '\n' {
                content + "\n"@ + t
            } else {
                content + t
            }
        },
    }
}

/// A reply's reasoning after a reasoning chunk.
pub open spec fn with_reasoning(prev: Option<Seq<char>>, chunk: Option<Seq<char>>) -> Option<Seq<char>> {
    match chunk {
        None => prev,
        Some(r) => match prev {
            Some(p) => Some(p + r),
            None => Some(r),
        },
    }
}

pub open spec fn opt_seq(o: Option<String>) -> Option<Seq<char>> {
    opt_view(o)
}

/// The last reply with visible text: an assistant message whose text is not
/// blank.
pub open spec fn last_reply(msgs: Seq<ChatMessage>) -> Option<int>
    decreases msgs.len(),
{
    if msgs.len() == 0 {
        None
    } else if msgs.last().role == Role::Assistant && trim(msgs.last().content@).len() > 0 {
        Some(msgs.len() - 1)
    } else {
        last_reply(msgs.drop_last())
    }
}

/// Where the current turn's messages start: after the last user message (at
/// the start when there is none).
pub open spec fn turn_start(msgs: Seq<ChatMessage>) -> int
    decreases msgs.len(),
{
    if msgs.len() == 0 {
        0
    } else if msgs.last().role == Role::User {
        msgs.len() as int
    } else {
        turn_start(msgs.drop_last())
    }
}

/// The tool calls shown among messages, in order.
pub open spec fn shown_calls(msgs: Seq<ChatMessage>) -> Seq<CallView>
    decreases msgs.len(),
{
    if msgs.len() == 0 {
        seq![]
    } else {
        shown_calls(msgs.drop_last()) + match msgs.last().tool {
            Some(t) => seq![(t.call_id@, t.name@, t.arguments@)],
            None => seq![],
        }
    }
}

/// The tool results shown among messages, in order: the call and its output.
pub open spec fn shown_results(msgs: Seq<ChatMessage>) -> Seq<(CallView, Seq<char>)>
    decreases msgs.len(),
{
    if msgs.len() == 0 {
        seq![]
    } else {
        shown_results(msgs.drop_last()) + match msgs.last().tool {
            Some(t) => match t.result {
                Some(r) => seq![((t.call_id@, t.name@, t.arguments@), r@)],
                None => seq![],
            },
            None => seq![],
        }
    }
}

/// The messages a finished turn of the UI adds to its session after the
/// prompt: the reply with the tool calls the turn made, then one `tool`
/// message per finished tool call, in order.
pub open spec fn transcript_turn(msgs: Seq<ChatMessage>, reply: Seq<char>, r: Seq<SessionMessage>) -> bool {
    let t = msgs.skip(turn_start(msgs));
    &&& r.len() == 1 + shown_results(t).len()
    &&& assistant_message(r[0], reply, shown_calls(t))
    &&& forall|i: int|
        0 <= i < shown_results(t).len() ==> tool_message(
            #[trigger] r[i + 1],
            shown_results(t)[i].0,
            shown_results(t)[i].1,
        )
}

/// A session that records one more exchange of a thread: the prompt, then
/// the turn's messages.
pub open spec fn records_turn(
    prev: Option<Session>,
    model: Seq<char>,
    provider: Seq<char>,
    user: Seq<char>,
    turn: Seq<SessionMessage>,
    s: Session,
) -> bool {
    let before = match prev {
        Some(p) => p.messages@,
        None => Seq::<SessionMessage>::empty(),
    };
    &&& s.model@ == model
    &&& s.provider@ == provider
    &&& s.messages@.len() == before.len() + 1 + turn.len()
    &&& s.messages@.take(before.len() as int) == before
    &&& plain_message(s.messages@[before.len() as int], "user"@, user)
    &&& s.messages@.skip(before.len() + 1int) == turn
    &&& match prev {
        Some(p) => s.id == p.id && s.created_at == p.created_at && opt_view(s.title) == if p.title is None {
            title_of(user)
        } else {
            opt_view(p.title)
        },
        None => opt_view(s.title) == title_of(user) && new_session_id(s.id@),
    }
}

/// `t` is a count the token estimator can give for the text.
pub open spec fn estimated<E: Fn(&String) -> usize>(estimate: E, text: String, t: usize) -> bool {
    call_ensures(estimate, (&text,), t)
}

/// Estimates of each message's text and reasoning (0 for a message
/// without reasoning).
pub open spec fn message_estimates<E: Fn(&String) -> usize>(
    estimate: E,
    msgs: Seq<ChatMessage>,
    es: Seq<(usize, usize)>,
) -> bool {
    &&& es.len() == msgs.len()
    &&& forall|i: int|
        0 <= i < msgs.len() ==> estimated(estimate, msgs[i].content, (#[trigger] es[i]).0) && match msgs[i].reasoning {
            Some(r) => estimated(estimate, r, es[i].1),
            None => es[i].1 == 0,
        }
}

/// The token count after a streamed piece, given the estimates `tc` of its
/// text and `tr` of its reasoning: the count before, plus `tc` when there is
/// text, plus `tr` when there is reasoning.
pub open spec fn event_count<E: Fn(&String) -> usize>(
    estimate: E,
    before: usize,
    content: String,
    reasoning: Option<String>,
    tc: usize,
    tr: usize,
    after: usize,
) -> bool {
    &&& content@.len() > 0 ==> estimated(estimate, content, tc)
    &&& reasoning matches Some(r) ==> estimated(estimate, r, tr)
    &&& after == sat_add(
        sat_add(before as nat, if content@.len() > 0 { tc as nat } else { 0 }),
        if reasoning is Some { tr as nat } else { 0 },
    )
}

/// The token count after a streamed piece: the count before, plus the
/// estimate of the text when there is text, plus the estimate of the
/// reasoning when there is reasoning.
pub open spec fn counts_event<E: Fn(&String) -> usize>(
    estimate: E,
    before: usize,
    content: String,
    reasoning: Option<String>,
    after: usize,
) -> bool {
    exists|tc: usize, tr: usize| #[trigger] event_count(estimate, before, content, reasoning, tc, tr, after)
}

/// The token count recounted over all messages.
pub open spec fn recounted<E: Fn(&String) -> usize>(estimate: E, msgs: Seq<ChatMessage>, count: usize) -> bool {
    exists|es: Seq<(usize, usize)>|
        #[trigger] message_estimates(estimate, msgs, es) && count as nat == capped(estimate_total(es))
}

/// What the end of a reply does to the session. With sessions saved, a
/// pending prompt and a reply with text, the exchange is recorded and the
/// session is to be written; otherwise the session stays as it was.
pub open spec fn saves_reply(
    save_sessions: bool,
    pending: Option<String>,
    msgs: Seq<ChatMessage>,
    prev: Option<Session>,
    model: Seq<char>,
    provider: Seq<char>,
    s: Option<Session>,
    saved: bool,
) -> bool {
    if save_sessions && pending is Some && last_reply(msgs) is Some {
        &&& saved
        &&& s is Some
        &&& exists|turn: Seq<SessionMessage>|
            transcript_turn(msgs, msgs[last_reply(msgs)->0].content@, turn) && #[trigger] records_turn(
                prev,
                model,
                provider,
                pending->0@,
                turn,
                s->0,
            )
    } else {
        !saved && s == prev
    }
}

/// The token estimates of each message.
fn estimates_of<E: Fn(&String) -> usize>(msgs: &Vec<ChatMessage>, estimate: &E) -> (es: Vec<(usize, usize)>)
    requires
        forall|s: String| call_requires(*estimate, (&s,)),
    ensures
        message_estimates(*estimate, msgs@, es@),
{
    let mut es: Vec<(usize, usize)> = Vec::new();
    let mut i: usize = 0;
    while i < msgs.len()
        invariant
            i <= msgs.len(),
            forall|s: String| call_requires(*estimate, (&s,)),
            message_estimates(*estimate, msgs@.take(i as int), es@),
        decreases msgs.len() - i,
    {
        let m = &msgs[i];
        let c = estimate(&m.content);
        let r: usize = match &m.reasoning {
            Some(text) => estimate(text),
            None => 0,
        };
        es.push((c, r));
        i += 1;
        assert(msgs@.take(i as int).drop_last() =~= msgs@.take(i - 1));
    }
    assert(msgs@.take(i as int) =~= msgs@);
    es
}

fn turn_start_index(msgs: &Vec<ChatMessage>) -> (r: usize)
    ensures
        r == turn_start(msgs@),
{
    let mut i = msgs.len();
    assert(msgs@.take(i as int) =~= msgs@);
    while i > 0
        invariant
            i <= msgs.len(),
            turn_start(msgs@) == turn_start(msgs@.take(i as int)),
        decreases i,
    {
        assert(msgs@.take(i as int).drop_last() =~= msgs@.take(i - 1));
        if msgs[i - 1].role == Role::User {
            return i;
        }
        i = i - 1;
    }
    0
}

/// The session messages of the UI's finished turn (see `transcript_turn`).
pub fn transcript_turn_messages(msgs: &Vec<ChatMessage>, reply: String) -> (r: Vec<SessionMessage>)
    ensures
        transcript_turn(msgs@, reply@, r@),
{
    let from = turn_start_index(msgs);
    proof {
        lemma_turn_start_bound(msgs@);
    }
    let ghost t = msgs@.skip(from as int);
    let mut calls: Vec<SessionToolCall> = Vec::new();
    let mut tools: Vec<SessionMessage> = Vec::new();
    let mut i = from;
    while i < msgs.len()
        invariant
            from <= i <= msgs.len(),
            t == msgs@.skip(from as int),
            stored_calls_view(calls@) == shown_calls(msgs@.subrange(from as int, i as int)),
            tools@.len() == shown_results(msgs@.subrange(from as int, i as int)).len(),
            forall|j: int|
                0 <= j < tools@.len() ==> tool_message(
                    #[trigger] tools@[j],
                    shown_results(msgs@.subrange(from as int, i as int))[j].0,
                    shown_results(msgs@.subrange(from as int, i as int))[j].1,
                ),
        decreases msgs.len() - i,
    {
        let ghost pre = msgs@.subrange(from as int, i as int);
        let ghost next = msgs@.subrange(from as int, i + 1);
        assert(next.drop_last() =~= pre);
        let ghost rs = shown_results(pre);
        match &msgs[i].tool {
            Some(td) => {
                let c = SessionToolCall { id: td.call_id.clone(), name: td.name.clone(), arguments: td.arguments.clone() };
                let ghost old_calls = calls@;
                calls.push(c);
                assert(stored_calls_view(calls@) =~= stored_calls_view(old_calls).push((c.id@, c.name@, c.arguments@)));
                match &td.result {
                    Some(out) => {
                        let m = SessionMessage {
                            role: "tool".to_owned(),
                            content: out.clone(),
                            reasoning_content: None,
                            tool_calls: None,
                            tool_call_id: Some(td.call_id.clone()),
                            name: Some(td.name.clone()),
                        };
                        proof {
                            reveal_strlit("tool");
                        }
                        tools.push(m);
                        let ghost now = shown_results(next);
                        assert(now =~= rs.push(((td.call_id@, td.name@, td.arguments@), out@)));
                        assert forall|j: int| 0 <= j < tools@.len() implies tool_message(
                            #[trigger] tools@[j],
                            now[j].0,
                            now[j].1,
                        ) by {
                            if j < rs.len() {
                                assert(now[j] == rs[j]);
                            }
                        }
                    },
                    None => {
                        assert(shown_results(next) =~= rs);
                    },
                }
            },
            None => {
                assert(shown_calls(next) =~= shown_calls(pre));
                assert(shown_results(next) =~= rs);
            },
        }
        i = i + 1;
    }
    assert(msgs@.subrange(from as int, msgs.len() as int) =~= t);
    let tool_calls = if calls.len() == 0 {
        None
    } else {
        Some(calls)
    };
    let head = SessionMessage {
        role: "assistant".to_owned(),
        content: reply,
        reasoning_content: None,
        tool_calls,
        tool_call_id: None,
        name: None,
    };
    proof {
        reveal_strlit("assistant");
    }
    let mut r: Vec<SessionMessage> = Vec::new();
    r.push(head);
    let ghost tv = tools@;
    r.append(&mut tools);
    proof {
        assert forall|k: int| 0 <= k < shown_results(t).len() implies tool_message(
            #[trigger] r@[k + 1],
            shown_results(t)[k].0,
            shown_results(t)[k].1,
        ) by {
            assert(r@[k + 1] == tv[k]);
        }
    }
    r
}

proof fn lemma_turn_start_bound(msgs: Seq<ChatMessage>)
    ensures
        0 <= turn_start(msgs) <= msgs.len(),
    decreases msgs.len(),
{
    if msgs.len() > 0 {
        lemma_turn_start_bound(msgs.drop_last());
    }
}

/// What a stream event asks of the caller afterwards.
#[derive(Clone, Copy, Debug, PartialEq, Eq, Structural)]
pub struct StreamOutcome {
    /// The reply finished: the token count is to be recomputed.
    pub finished: bool,
    /// The session was updated with the finished exchange and is to be
    /// written.
    pub save_session: bool,
}


pub proof fn lemma_last_reply(msgs: Seq<ChatMessage>)
    ensures
        last_reply(msgs) matches Some(k) ==> 0 <= k < msgs.len() && msgs[k].role == Role::Assistant
            && trim(msgs[k].content@).len() > 0,
    decreases msgs.len(),
{
    if msgs.len() > 0 {
        lemma_last_reply(msgs.drop_last());
    }
}

/// The index of the last reply with visible text.
pub fn last_reply_index(msgs: &Vec<ChatMessage>) -> (r: Option<usize>)
    ensures
        match r {
            Some(k) => last_reply(msgs@) == Some(k as int),
            None => last_reply(msgs@) is None,
        },
{
    let mut i = msgs.len();
    assert(msgs@.take(msgs@.len() as int) =~= msgs@);
    while i > 0
        invariant
            i <= msgs@.len(),
            last_reply(msgs@) == last_reply(msgs@.take(i as int)),
        decreases i,
    {
        let ghost t = msgs@.take(i as int);
        assert(t.drop_last() =~= msgs@.take(i - 1));
        assert(t.last() == msgs@[i - 1]);
        let m = &msgs[i - 1];
        let blank = trim_chars(&chars_of(m.content.as_str())).len() == 0;
        if m.role == Role::Assistant && !blank {
            return Some(i - 1);
        }
        i -= 1;
    }
    None
}

/// A reply after a stream event: the text appended, the reasoning chunk
/// appended to its reasoning, and an error shown in its text.
fn streamed_message(msg: ChatMessage, content: &str, reasoning: Option<String>, error: &Option<String>) -> (m:
    ChatMessage)
    ensures
        m.role == msg.role,
        m.tool == msg.tool,
        m.collapsed == msg.collapsed,
        m.reasoning_collapsed == msg.reasoning_collapsed,
        m.content@ == with_error(msg.content@ + content@, opt_seq(*error)),
        opt_view(m.reasoning) == with_reasoning(opt_view(msg.reasoning), opt_seq(reasoning)),
{
    let mut msg = msg;
    push_text(&mut msg.content, content);
    match reasoning {
        Some(r) => {
            msg.reasoning = match msg.reasoning.take() {
                Some(existing) => {
                    let mut e = existing;
                    push_text(&mut e, r.as_str());
                    Some(e)
                },
                None => Some(r),
            };
        },
        None => {},
    }
    match error {
        Some(e) => {
            let mut t = chars_of("Error: ");
            extend_str(&mut t, e.as_str());
            let c = chars_of(msg.content.as_str());
            if c.len() == 0 {
                msg.content = string_of(&t);
            } else if !contains_chars(&c, &t) {
                let mut v = c;
                if v[v.len() - 1] != '\n' {
                    extend_str(&mut v, "\n");
                }
                extend_chars(&mut v, &t);
                msg.content = string_of(&v);
            }
        },
        None => {},
    }
    msg
}

/// Where a stream event for a turn lands, if it changes anything: the
/// event must belong to the active turn, have a message to go to, and that
/// message must be a reply.
pub open spec fn stream_target(app: App, turn_id: u64, content: Seq<char>, reasoning: Option<Seq<char>>, error: Option<Seq<char>>) -> Option<int> {
    let slot = stream_slot(app.active_assistant_index, app.messages@.len(), has_payload(content, reasoning, error));
    if app.active_turn_id == Some(turn_id) && slot is Some && !(slot->0 < app.messages@.len()
        && app.messages@[slot->0].role != Role::Assistant) {
        slot
    } else {
        None
    }
}


/// An empty reply that a tool call replaces.
pub open spec fn is_placeholder(m: ChatMessage) -> bool {
    &&& m.role == Role::Assistant
    &&& m.content@.len() == 0
    &&& (m.reasoning is None || m.reasoning->0@.len() == 0)
}

/// The transcript once a tool call arrives: the active reply is dropped
/// while it is still empty.
pub open spec fn without_placeholder(msgs: Seq<ChatMessage>, active: Option<usize>) -> Seq<ChatMessage> {
    if active is Some && active->0 < msgs.len() && is_placeholder(msgs[active->0 as int]) {
        msgs.remove(active->0 as int)
    } else {
        msgs
    }
}

/// The first message that shows the tool call with the given id.
pub open spec fn find_call(msgs: Seq<ChatMessage>, call_id: Seq<char>, from: int) -> Option<int>
    decreases msgs.len() - from,
{
    if from < 0 || from >= msgs.len() {
        None
    } else if msgs[from].tool is Some && msgs[from].tool->0.call_id@ == call_id {
        Some(from)
    } else {
        find_call(msgs, call_id, from + 1)
    }
}

pub proof fn lemma_find_call(msgs: Seq<ChatMessage>, call_id: Seq<char>, from: int)
    requires
        0 <= from,
    ensures
        find_call(msgs, call_id, from) matches Some(k) ==> from <= k < msgs.len() && msgs[k].tool
            is Some && msgs[k].tool->0.call_id@ == call_id,
    decreases msgs.len() - from,
{
    if from < msgs.len() && !(msgs[from].tool is Some && msgs[from].tool->0.call_id@ == call_id) {
        lemma_find_call(msgs, call_id, from + 1);
    }
}

/// A tool message once its call finished with a result.
pub open spec fn finished_tool_message(
    before: ChatMessage,
    after: ChatMessage,
    result: Seq<char>,
    diff: Option<FileDiffDisplay>,
    elapsed: Seq<char>,
) -> bool {
    let t = before.tool->0;
    let st = result_status(Some(result));
    &&& after.role == before.role
    &&& after.reasoning == before.reasoning
    &&& after.reasoning_collapsed == before.reasoning_collapsed
    &&& after.tool is Some
    &&& after.tool->0.call_id == t.call_id
    &&& after.tool->0.name == t.name
    &&& after.tool->0.arguments == t.arguments
    &&& after.tool->0.file_before == t.file_before
    &&& opt_view(after.tool->0.result) == Some(result)
    &&& after.tool->0.status == st
    &&& after.tool->0.file_diff == (if st == ToolStatus::Done {
        diff
    } else {
        None
    })
    &&& after.content@ == tool_content(t.name@, t.arguments@, st, elapsed, Some(result))
    &&& after.collapsed == (tool_rows(after.content@, diff_text_of(after.tool)) > 10)
}

/// A new tool message for a call, with its result when there is one.
pub open spec fn new_tool_message(
    m: ChatMessage,
    call_id: Seq<char>,
    name: Seq<char>,
    arguments: Seq<char>,
    result: Option<Seq<char>>,
    file_before: Option<FileSnapshot>,
    elapsed: Seq<char>,
) -> bool {
    let st = if result is Some {
        result_status(result)
    } else {
        ToolStatus::Running
    };
    &&& m.role == Role::Tool
    &&& m.reasoning is None
    &&& m.reasoning_collapsed
    &&& m.tool is Some
    &&& m.tool->0.call_id@ == call_id
    &&& m.tool->0.name@ == name
    &&& m.tool->0.arguments@ == arguments
    &&& opt_view(m.tool->0.result) == result
    &&& m.tool->0.status == st
    &&& m.tool->0.file_diff is None
    &&& m.tool->0.file_before == (if result is None {
        file_before
    } else {
        None
    })
    &&& m.content@ == tool_content(name, arguments, st, elapsed, result)
    &&& m.collapsed == (if result is Some {
        tool_rows(m.content@, None) > 10
    } else {
        true
    })
}

/// The first message that shows the tool call with the given id.
pub fn find_call_index(msgs: &Vec<ChatMessage>, call_id: &str) -> (r: Option<usize>)
    ensures
        match r {
            Some(k) => find_call(msgs@, call_id@, 0) == Some(k as int),
            None => find_call(msgs@, call_id@, 0) is None,
        },
{
    let id = chars_of(call_id);
    let mut i: usize = 0;
    while i < msgs.len()
        invariant
            i <= msgs.len(),
            id@ == call_id@,
            find_call(msgs@, call_id@, 0) == find_call(msgs@, call_id@, i as int),
        decreases msgs.len() - i,
    {
        let hit = match &msgs[i].tool {
            Some(t) => crate::text::eq_str(&id, t.call_id.as_str()),
            None => false,
        };
        if hit {
            return Some(i);
        }
        i += 1;
    }
    None
}

fn finished_tool(msg: ChatMessage, result: String, diff: Option<FileDiffDisplay>, elapsed: &str) -> (r:
    ChatMessage)
    requires
        msg.tool is Some,
    ensures
        finished_tool_message(msg, r, result@, diff, elapsed@),
{
    let mut msg = msg;
    let ghost before = msg;
    let mut tool = msg.tool.take().unwrap();
    let status = tool_result_status(Some(result.as_str()));
    tool.result = Some(result);
    tool.status = status;
    tool.file_diff = if status == ToolStatus::Done {
        diff
    } else {
        None
    };
    msg.content = tool_display_content(&tool, elapsed);
    msg.tool = Some(tool);
    msg.collapsed = tool_message_row_count(&msg) > 10;
    msg
}

fn new_tool(
    call_id: String,
    name: String,
    arguments: String,
    result: Option<String>,
    file_before: Option<FileSnapshot>,
    elapsed: &str,
) -> (r: ChatMessage)
    ensures
        new_tool_message(r, call_id@, name@, arguments@, opt_view(result), file_before, elapsed@),
{
    let mut msg = ChatMessage::tool_call(call_id, name, arguments);
    let mut tool = msg.tool.take().unwrap();
    match result {
        Some(res) => {
            let status = tool_result_status(Some(res.as_str()));
            tool.result = Some(res);
            tool.status = status;
            msg.content = tool_display_content(&tool, elapsed);
            msg.tool = Some(tool);
            msg.collapsed = tool_message_row_count(&msg) > 10;
        },
        None => {
            tool.file_before = file_before;
            msg.content = tool_display_content(&tool, elapsed);
            msg.tool = Some(tool);
        },
    }
    msg
}

/// The state of the terminal UI.
pub struct App {
    pub should_quit: bool,
    pub messages: Vec<ChatMessage>,
    /// The composer's text.
    pub input: Vec<char>,
    /// The composer's cursor, in characters from the start of the input.
    pub input_cursor: usize,
    pub status: AppStatus,
    pub current_model: String,
    pub previous_model: String,
    pub current_provider: String,
    pub token_count: usize,
    pub scroll_offset: usize,
    pub help_open: bool,
    pub transcript_mode: bool,
    pub spinner_index: usize,
    pub provider_override: Option<String>,
    pub save_sessions: bool,
    pub pending_user: Option<String>,
    pub active_turn_id: Option<u64>,
    pub next_turn_id: u64,
    pub active_assistant_index: Option<usize>,
    /// Prompts waiting for the current reply, oldest first.
    pub queued_inputs: VecDeque<String>,
    pub suggestion_index: usize,
    pub input_history: Vec<String>,
    pub history_index: Option<usize>,
    pub draft_before_history: Vec<char>,
    pub thinking_effort: Option<String>,
    pub context_limit: u32,
    pub menu: Option<MenuState>,
    pub search: SearchState,
    /// The sandbox mode of the runtime security in force.
    pub sandbox_mode: String,
    /// How many plugins are loaded.
    pub plugin_count: usize,
    /// Whether an agent is built for the current model and settings.
    pub agent_ready: bool,
    /// The saved session this conversation continues.
    pub session: Option<Session>,
    /// Whether a reply is being timed.
    pub stream_started: bool,
    /// Whether the reply's reasoning phase is being timed.
    pub reasoning_started: bool,
    /// Whether the reasoning phase's duration has been recorded.
    pub reasoning_timed: bool,
}

/// What every operation of the UI keeps: the cursor within the input, and
/// the search position among the matches.
pub open spec fn app_inv(a: App) -> bool {
    &&& a.input_cursor <= a.input@.len()
    &&& (a.search.index matches Some(i) ==> i < a.search.matches@.len())
}

/// The first position of a value in a list.

pub fn position_of(v: &Vec<usize>, t: usize) -> (r: Option<usize>)
    ensures
        match r {
            Some(k) => k < v@.len() && v@[k as int] == t && forall|j: int| 0 <= j < k ==> v@[j] != t,
            None => !v@.contains(t),
        },
{
    let mut k: usize = 0;
    while k < v.len()
        invariant
            k <= v.len(),
            forall|j: int| 0 <= j < k ==> v@[j] != t,
        decreases v.len() - k,
    {
        if v[k] == t {
            return Some(k);
        }
        k += 1;
    }
    None
}

/// One step back through the input history (Up on an empty input).
pub open spec fn history_prev_step(before: App, after: App) -> bool {
                let h = before.input_history@;
                match before.history_index {
                    None => if h.len() == 0 {
                        after == before
                    } else {
                        &&& after.history_index == Some((h.len() - 1) as usize)
                        &&& after.draft_before_history == before.input
                        &&& after.input@ == h.last()@
                        &&& after.input_cursor == after.input@.len()
                        &&& after == (App {
                            history_index: after.history_index,
                            draft_before_history: after.draft_before_history,
                            input: after.input,
                            input_cursor: after.input_cursor,
                            ..before
                        })
                    },
                    Some(i) => if i > 0 && i <= h.len() && h.len() > 0 {
                        &&& after.history_index == Some((i - 1) as usize)
                        &&& after.input@ == h[i - 1]@
                        &&& after.input_cursor == after.input@.len()
                        &&& after == (App {
                            history_index: after.history_index,
                            input: after.input,
                            input_cursor: after.input_cursor,
                            ..before
                        })
                    } else {
                        after == before
                    },
                }
}

/// One step forward through the input history (Down while browsing it).
pub open spec fn history_next_step(before: App, after: App) -> bool {
                let h = before.input_history@;
                match before.history_index {
                    None => after == before,
                    Some(i) => if i + 1 < h.len() {
                        &&& after.history_index == Some((i + 1) as usize)
                        &&& after.input@ == h[i + 1]@
                        &&& after.input_cursor == after.input@.len()
                        &&& after == (App {
                            history_index: after.history_index,
                            input: after.input,
                            input_cursor: after.input_cursor,
                            ..before
                        })
                    } else {
                        &&& after.history_index is None
                        &&& after.input == before.draft_before_history
                        &&& after.draft_before_history@.len() == 0
                        &&& after.input_cursor == after.input@.len()
                        &&& after == (App {
                            history_index: None,
                            input: after.input,
                            input_cursor: after.input_cursor,
                            draft_before_history: after.draft_before_history,
                            ..before
                        })
                    },
                }
}

/// Law: stepping back into the history and forward out of it again gives
/// back the input that was being written, and leaves history browsing.
pub proof fn law_history_round_trip(a0: App, a1: App, a2: App)
    requires
        a0.history_index is None,
        a0.input_history@.len() > 0,
        history_prev_step(a0, a1),
        history_next_step(a1, a2),
    ensures
        a2.input == a0.input,
        a2.history_index is None,
        a2.input_cursor == a0.input@.len(),
{
    vstd::std_specs::vec::axiom_spec_len(&a0.input_history);
}


/// Law: one step back through the history and one step forward return to
/// the entry that was shown.
pub proof fn law_history_back_and_forth(a0: App, a1: App, a2: App, i: usize)
    requires
        a0.history_index == Some(i),
        0 < i < a0.input_history@.len(),
        history_prev_step(a0, a1),
        history_next_step(a1, a2),
    ensures
        a2.history_index == Some(i),
        a2.input@ == a0.input_history@[i as int]@,
        a2.input_history == a0.input_history,
{
}

/// Law: a step forward from an entry that is not the newest shows the entry
/// just after it.
pub proof fn law_history_next_shows_following_entry(a0: App, a1: App, i: usize)
    requires
        a0.history_index == Some(i),
        i + 1 < a0.input_history@.len(),
        history_next_step(a0, a1),
    ensures
        a1.history_index == Some((i + 1) as usize),
        a1.input@ == a0.input_history@[i + 1]@,
{
}

/// The state once the active turn is dropped.
pub open spec fn cancelled(a: App) -> App {
    App {
        active_turn_id: None,
        active_assistant_index: None,
        pending_user: None,
        status: if a.status is Streaming {
            AppStatus::Ready
        } else {
            a.status
        },
        stream_started: false,
        reasoning_started: false,
        reasoning_timed: false,
        ..a
    }
}

/// `b` is `a` with a system notice appended to the transcript.
pub open spec fn with_notice(a: App, b: App, text: Seq<char>) -> bool {
    &&& b.messages@.len() == a.messages@.len() + 1
    &&& b.messages@.take(a.messages@.len() as int) == a.messages@
    &&& is_system_message(b.messages@.last(), text)
    &&& b == (App { messages: b.messages, ..a })
}


/// A key of the keyboard, as the UI tells keys apart.
#[derive(Clone, Copy, Debug, PartialEq, Eq, Structural)]
pub enum Key {
    Char(char),
    Backspace,
    Delete,
    Left,
    Right,
    Home,
    End,
    Enter,
    Esc,
    Up,
    Down,
    PageUp,
    PageDown,
    Tab,
    Other,
}

/// A key press with the modifiers the UI looks at.
#[derive(Clone, Copy, Debug, PartialEq, Eq, Structural)]
pub struct KeyPress {
    pub key: Key,
    pub ctrl: bool,
    pub shift: bool,
}

/// What a key press leaves for the caller to do.
#[derive(Debug)]
pub enum KeyAction {
    Nothing,
    /// Submit the input.
    Submit,
    /// Put the text on the clipboard.
    Copy(String),
    /// Rebuild the runtime security for the sandbox mode.
    SwitchPermissions(String),
}

/// Which handling a key press gets.
#[derive(Clone, Copy, Debug, PartialEq, Eq, Structural)]
pub enum Route {
    MenuUp,
    MenuDown,
    MenuPick,
    MenuClose,
    SuggestAccept,
    SuggestUp,
    SuggestDown,
    Quit,
    ClearScreen,
    NewConversation,
    ToggleReasoning,
    StartFind,
    NextMatch,
    ToggleTool,
    CopyReply,
    ToggleHelp,
    Type(char),
    Backspace,
    Delete,
    Left,
    Right,
    Home,
    End,
    Newline,
    Submit,
    Escape,
    Up,
    Down,
    PageUp,
    PageDown,
    Ignore,
}

/// The handling a key press gets: an open menu takes the arrows, Enter,
/// Esc and Space; a suggestion list takes Tab and the arrows; then the
/// Ctrl shortcuts, and the composer's editing keys.
pub open spec fn route(a: App, k: KeyPress) -> Route {
    let menu_key = k.key == Key::Up || k.key == Key::Down || k.key == Key::Enter || k.key
        == Key::Esc || k.key == Key::Char(' ');
    let suggest_key = k.key == Key::Tab || k.key == Key::Up || k.key == Key::Down;
    if a.menu is Some && menu_key {
        if k.key == Key::Up {
            Route::MenuUp
        } else if k.key == Key::Down {
            Route::MenuDown
        } else if k.key == Key::Enter {
            Route::MenuPick
        } else {
            Route::MenuClose
        }
    } else if suggestions_for(a.input@).len() > 0 && suggest_key {
        if k.key == Key::Tab {
            Route::SuggestAccept
        } else if k.key == Key::Up {
            Route::SuggestUp
        } else {
            Route::SuggestDown
        }
    } else {
        match k.key {
            Key::Char(c) => {
                if k.ctrl && c == 'c' {
                    Route::Quit
                } else if k.ctrl && c == 'l' {
                    Route::ClearScreen
                } else if k.ctrl && c == 'n' {
                    Route::NewConversation
                } else if k.ctrl && c == 'o' {
                    Route::ToggleReasoning
                } else if k.ctrl && c == 'f' {
                    Route::StartFind
                } else if k.ctrl && c == 'g' {
                    Route::NextMatch
                } else if k.ctrl && c == 'e' {
                    Route::ToggleTool
                } else if k.ctrl && c == 'y' {
                    Route::CopyReply
                } else if c == '?' && a.input@.len() == 0 {
                    Route::ToggleHelp
                } else {
                    Route::Type(c)
                }
            },
            Key::Backspace => if a.input_cursor > 0 {
                Route::Backspace
            } else {
                Route::Ignore
            },
            Key::Delete => if a.input_cursor < a.input@.len() {
                Route::Delete
            } else {
                Route::Ignore
            },
            Key::Left => if a.input_cursor > 0 {
                Route::Left
            } else {
                Route::Ignore
            },
            Key::Right => if a.input_cursor < a.input@.len() {
                Route::Right
            } else {
                Route::Ignore
            },
            Key::Home => Route::Home,
            Key::End => Route::End,
            Key::Enter => if k.shift {
                Route::Newline
            } else {
                Route::Submit
            },
            Key::Esc => Route::Escape,
            Key::Up => Route::Up,
            Key::Down => Route::Down,
            Key::PageUp => Route::PageUp,
            Key::PageDown => Route::PageDown,
            _ => Route::Ignore,
        }
    }
}

/// The highlighted suggestion kept within a list of `n`.
pub open spec fn clamped_index(n: nat, i: usize) -> usize {
    if n == 0 {
        0
    } else if i >= n {
        (n - 1) as usize
    } else {
        i
    }
}

/// The state after leaving history browsing.
pub open spec fn out_of_history(a: App, b: App) -> bool {
    &&& b.history_index is None
    &&& (a.history_index is Some ==> b.draft_before_history@.len() == 0)
    &&& (a.history_index is None ==> b.draft_before_history == a.draft_before_history)
}

/// `b` is `a` with a character typed at the cursor.
pub open spec fn typed(a: App, b: App, c: char) -> bool {
    &&& b.input@ == a.input@.insert(a.input_cursor as int, c)
    &&& b.input_cursor == a.input_cursor + 1
    &&& !b.help_open
    &&& out_of_history(a, b)
    &&& b.suggestion_index == clamped_index(suggestions_for(b.input@).len(), a.suggestion_index)
    &&& b == (App {
        input: b.input,
        input_cursor: b.input_cursor,
        help_open: false,
        history_index: None,
        draft_before_history: b.draft_before_history,
        suggestion_index: b.suggestion_index,
        ..a
    })
}

/// The last reply with text, which Ctrl+Y and `/copy` copy.
pub open spec fn last_answer(msgs: Seq<ChatMessage>) -> Option<int>
    decreases msgs.len(),
{
    if msgs.len() == 0 {
        None
    } else if msgs.last().role == Role::Assistant && msgs.last().content@.len() > 0 {
        Some(msgs.len() - 1)
    } else {
        last_answer(msgs.drop_last())
    }
}

/// The last reply that has reasoning, which Ctrl+O expands or collapses.
pub open spec fn last_reasoning(msgs: Seq<ChatMessage>) -> Option<int>
    decreases msgs.len(),
{
    if msgs.len() == 0 {
        None
    } else if msgs.last().role == Role::Assistant && msgs.last().reasoning is Some
        && msgs.last().reasoning->0@.len() > 0 {
        Some(msgs.len() - 1)
    } else {
        last_reasoning(msgs.drop_last())
    }
}

pub proof fn lemma_last_answer(msgs: Seq<ChatMessage>)
    ensures
        last_answer(msgs) matches Some(k) ==> 0 <= k < msgs.len() && msgs[k].role == Role::Assistant
            && msgs[k].content@.len() > 0,
        last_reasoning(msgs) matches Some(k) ==> 0 <= k < msgs.len() && msgs[k].role
            == Role::Assistant,
    decreases msgs.len(),
{
    if msgs.len() > 0 {
        lemma_last_answer(msgs.drop_last());
    }
}

/// The state after a fresh start (Ctrl+N, `/new`).
pub open spec fn reset(a: App, b: App) -> bool {
    &&& b.messages@.len() == 0
    &&& b.input@.len() == 0
    &&& b.queued_inputs@.len() == 0
    &&& b.search.query@.len() == 0
    &&& b.search.matches@.len() == 0
    &&& b.search.index is None
    &&& b.search.target_message is None
    &&& b.previous_model@.len() == 0
    &&& b == (App {
        messages: b.messages,
        input: b.input,
        input_cursor: 0,
        scroll_offset: 0,
        help_open: false,
        token_count: 0,
        queued_inputs: b.queued_inputs,
        search: b.search,
        suggestion_index: 0,
        agent_ready: false,
        previous_model: b.previous_model,
        session: None,
        pending_user: None,
        status: AppStatus::Ready,
        ..a
    })
}


/// The state after `/next` (Ctrl+G).
pub open spec fn jumped_next(a: App, b: App) -> bool {
    let n = a.search.matches@.len();
    if n == 0 {
        if a.search.query@.len() > 0 {
            with_notice(a, b, no_matches_text(a.search.query@))
        } else {
            b == a
        }
    } else {
        let next = next_match(a.search.index, n);
        &&& b.search.index == Some(next as usize)
        &&& b.search.target_message == Some(a.search.matches@[next])
        &&& b.scroll_offset == scroll_for_target(a.messages@, a.search.matches@[next] as int)
        &&& b == (App {
            search: SearchState {
                index: b.search.index,
                target_message: b.search.target_message,
                ..a.search
            },
            scroll_offset: b.scroll_offset,
            ..a
        })
    }
}

/// The state after `/prev`.
pub open spec fn jumped_prev(a: App, b: App) -> bool {
    let n = a.search.matches@.len();
    if n == 0 {
        if a.search.query@.len() > 0 {
            with_notice(a, b, no_matches_text(a.search.query@))
        } else {
            b == a
        }
    } else {
        let prev = prev_match(a.search.index, n);
        &&& b.search.index == Some(prev as usize)
        &&& (if 0 <= prev < n {
            b.search.target_message == Some(a.search.matches@[prev])
                && b.scroll_offset == scroll_for_target(a.messages@, a.search.matches@[prev] as int)
        } else {
            b.search.target_message is None && b.scroll_offset == a.scroll_offset
        })
        &&& b == (App {
            search: SearchState {
                index: b.search.index,
                target_message: b.search.target_message,
                ..a.search
            },
            scroll_offset: b.scroll_offset,
            ..a
        })
    }
}


/// What a key press does to the state, and what it leaves to the caller.
pub open spec fn key_effect(a: App, b: App, k: KeyPress, r: KeyAction) -> bool {
    let nothing = r is Nothing;
    match route(a, k) {
        Route::MenuUp => nothing && b == (App {
            menu: Some(
                MenuState {
                    index: if a.menu->0.index > 0 {
                        (a.menu->0.index - 1) as usize
                    } else {
                        a.menu->0.index
                    },
                    ..a.menu->0
                },
            ),
            ..a
        }),
        Route::MenuDown => nothing && b == (App {
            menu: Some(
                MenuState {
                    index: if a.menu->0.index + 1 < a.menu->0.options@.len() {
                        (a.menu->0.index + 1) as usize
                    } else {
                        a.menu->0.index
                    },
                    ..a.menu->0
                },
            ),
            ..a
        }),
        Route::MenuPick => {
            let m = a.menu->0;
            if m.index < m.options@.len() {
                let sel = m.options@[m.index as int];
                let a1 = App { menu: None, ..a };
                match m.kind {
                    MenuKind::Model => nothing && b.previous_model@.len() == 0
                        && b.current_provider@.len() == 0 && with_notice(
                        App {
                            current_model: sel,
                            previous_model: b.previous_model,
                            current_provider: b.current_provider,
                            agent_ready: false,
                            ..cancelled(a1)
                        },
                        b,
                        "Model: "@ + sel@,
                    ),
                    MenuKind::Provider => nothing && with_notice(
                        App {
                            provider_override: Some(sel),
                            current_provider: sel,
                            agent_ready: false,
                            ..cancelled(a1)
                        },
                        b,
                        "Provider: "@ + sel@,
                    ),
                    MenuKind::Permissions => b == a1 && r == KeyAction::SwitchPermissions(sel),
                    MenuKind::Plugin => nothing && b.input@ == "/plugin "@ + sel@ + " "@
                        && b.input_cursor == b.input@.len() && b == (App {
                        input: b.input,
                        input_cursor: b.input_cursor,
                        suggestion_index: 0,
                        ..a1
                    }),
                }
            } else {
                nothing && b == a
            }
        },
        Route::MenuClose => nothing && b == (App { menu: None, ..a }),
        Route::SuggestAccept => {
            let sug = suggestions_for(a.input@);
            nothing && if a.suggestion_index < sug.len() {
                &&& b.input@ == command_completion(sug[a.suggestion_index as int].0)
                &&& b.input_cursor == b.input@.len()
                &&& b == (App {
                    input: b.input,
                    input_cursor: b.input_cursor,
                    suggestion_index: 0,
                    ..a
                })
            } else {
                b == a
            }
        },
        Route::SuggestUp => nothing && b == (App {
            suggestion_index: if a.suggestion_index > 0 {
                (a.suggestion_index - 1) as usize
            } else {
                0
            },
            ..a
        }),
        Route::SuggestDown => nothing && b == (App {
            suggestion_index: if a.suggestion_index + 1 < suggestions_for(a.input@).len() {
                (a.suggestion_index + 1) as usize
            } else {
                a.suggestion_index
            },
            ..a
        }),
        Route::Quit => nothing && b == (App { should_quit: true, ..a }),
        Route::ClearScreen => nothing && b.messages@.len() == 0 && b.queued_inputs@.len() == 0
            && b.search.query@.len() == 0 && b.search.matches@.len() == 0 && b.search.index is None
            && b.search.target_message is None && b == (App {
            messages: b.messages,
            queued_inputs: b.queued_inputs,
            search: b.search,
            help_open: false,
            ..cancelled(a)
        }),
        Route::NewConversation => nothing && reset(a, b),
        Route::ToggleReasoning => nothing && match last_reasoning(a.messages@) {
            Some(i) => b == (App {
                messages: b.messages,
                ..a
            }) && b.messages@ == a.messages@.update(
                i,
                ChatMessage { reasoning_collapsed: !a.messages@[i].reasoning_collapsed, ..a.messages@[i] },
            ),
            None => b == (App { transcript_mode: !a.transcript_mode, ..a }),
        },
        Route::StartFind => nothing && b.input@ == "/find "@ && b.input_cursor == b.input@.len()
            && out_of_history(a, b) && b == (App {
            input: b.input,
            input_cursor: b.input_cursor,
            history_index: None,
            draft_before_history: b.draft_before_history,
            help_open: false,
            ..a
        }),
        Route::NextMatch => nothing && jumped_next(a, b),
        Route::ToggleTool => nothing && if a.messages@.len() > 0 && a.messages@.last().role
            == Role::Tool {
            b == (App { messages: b.messages, ..a }) && b.messages@ == a.messages@.update(
                a.messages@.len() - 1,
                ChatMessage { collapsed: !a.messages@.last().collapsed, ..a.messages@.last() },
            )
        } else {
            b == a
        },
        Route::CopyReply => match last_answer(a.messages@) {
            Some(i) => (r matches KeyAction::Copy(t) && t@ == a.messages@[i].content@)
                && with_notice(a, b, "Copied to clipboard"@),
            None => nothing && b == a,
        },
        Route::ToggleHelp => nothing && b == (App { help_open: !a.help_open, ..a }),
        Route::Type(c) => nothing && typed(a, b, c),
        Route::Backspace => nothing && b.input@ == a.input@.remove(a.input_cursor - 1)
            && b.input_cursor == a.input_cursor - 1 && b.suggestion_index == clamped_index(
            suggestions_for(b.input@).len(),
            a.suggestion_index,
        ) && b == (App {
            input: b.input,
            input_cursor: b.input_cursor,
            suggestion_index: b.suggestion_index,
            ..a
        }),
        Route::Delete => nothing && b.input@ == a.input@.remove(a.input_cursor as int)
            && b.suggestion_index == clamped_index(suggestions_for(b.input@).len(), a.suggestion_index)
            && b == (App { input: b.input, suggestion_index: b.suggestion_index, ..a }),
        Route::Left => nothing && b == (App { input_cursor: (a.input_cursor - 1) as usize, ..a }),
        Route::Right => nothing && b == (App { input_cursor: (a.input_cursor + 1) as usize, ..a }),
        Route::Home => nothing && b == (App { input_cursor: 0, ..a }),
        Route::End => nothing && if a.input@.len() == 0 && a.scroll_offset > 0 {
            b == (App { scroll_offset: 0, ..a })
        } else {
            b == (App { input_cursor: a.input@.len() as usize, ..a })
        },
        Route::Newline => nothing && b.input@ == a.input@.insert(a.input_cursor as int, '\n')
            && b.input_cursor == a.input_cursor + 1 && b == (App {
            input: b.input,
            input_cursor: b.input_cursor,
            ..a
        }),
        Route::Submit => r is Submit && b == a,
        Route::Escape => nothing && if a.history_index is Some {
            out_of_history(a, b) && b.input@.len() == 0 && b == (App {
                history_index: None,
                draft_before_history: b.draft_before_history,
                input: b.input,
                input_cursor: 0,
                ..a
            })
        } else if a.help_open {
            b == (App { help_open: false, ..a })
        } else if a.search.query@.len() > 0 && a.input@.len() == 0 {
            b.search.query@.len() == 0 && b.search.matches@.len() == 0 && b.search.index is None
                && b.search.target_message is None && b == (App { search: b.search, ..a })
        } else if a.input@.len() > 0 {
            b.input@.len() == 0 && b == (App {
                input: b.input,
                input_cursor: 0,
                suggestion_index: 0,
                ..a
            })
        } else {
            b == a
        },
        Route::Up => nothing && if a.input@.len() == 0 && a.input_history@.len() > 0 {
            history_prev_step(a, b)
        } else {
            b == (App { scroll_offset: sat_add(a.scroll_offset as nat, 1) as usize, ..a })
        },
        Route::Down => nothing && if a.history_index is Some {
            history_next_step(a, b)
        } else if a.scroll_offset > 0 {
            b == (App { scroll_offset: (a.scroll_offset - 1) as usize, ..a })
        } else {
            b == a
        },
        Route::PageUp => nothing && b == (App {
            scroll_offset: sat_add(a.scroll_offset as nat, 8) as usize,
            ..a
        }),
        Route::PageDown => nothing && b == (App {
            scroll_offset: if a.scroll_offset >= 8 {
                (a.scroll_offset - 8) as usize
            } else {
                0
            },
            ..a
        }),
        Route::Ignore => nothing && b == a,
    }
}


/// Law: a key press keeps the cursor within the input and the search
/// position among the matches.
pub proof fn law_keys_keep_ui_invariant(a: App, b: App, k: KeyPress, r: KeyAction)
    requires
        app_inv(a),
        key_effect(a, b, k, r),
    ensures
        app_inv(b),
{
}

/// Law: submitting the input keeps the cursor within the input and the
/// search position among the matches.
pub proof fn law_submit_keeps_ui_invariant(a: App, b: App, r: SubmitStep)
    requires
        app_inv(a),
        submit_effect(a, b, r),
    ensures
        app_inv(b),
{
}

/// The state after searching the transcript for a query: the trimmed query,
/// its matches, the first one as target, and a notice of the result.
pub open spec fn started_search(a: App, b: App, query: Seq<char>) -> bool {
    let q = trim(query);
    if q.len() == 0 {
        &&& b.search.query@.len() == 0
        &&& b.search.matches@.len() == 0
        &&& b.search.index is None
        &&& b.search.target_message is None
        &&& b == (App { search: b.search, ..a })
    } else {
        let h = hits(a.messages@, q, a.transcript_mode);
        &&& b.search.query@ == q
        &&& b.search.matches@ == h
        &&& b.search.index == (if h.len() > 0 {
            Some(0usize)
        } else {
            None
        })
        &&& b.search.target_message == (if h.len() > 0 {
            Some(h[0])
        } else {
            None
        })
        &&& b.messages@.len() == a.messages@.len() + 1
        &&& b.messages@.take(a.messages@.len() as int) == a.messages@
        &&& if h.len() == 0 {
            &&& b.scroll_offset == 0
            &&& is_system_message(b.messages@.last(), no_matches_text(q))
        } else {
            &&& b.scroll_offset == scroll_for_target(a.messages@, h[0] as int)
            &&& is_system_message(b.messages@.last(), search_found_text(q, 1, h.len()))
        }
        &&& b == (App { search: b.search, messages: b.messages, scroll_offset: b.scroll_offset, ..a })
    }
}


/// What a slash command leaves for the caller to do.
#[derive(Debug)]
pub enum SlashOutcome {
    /// The text is not a slash command.
    NotCommand,
    /// Handled.
    Handled,
    /// List the authenticated models, then call `show_models`.
    ChooseModel,
    /// List the authenticated providers, then call `show_providers`.
    ChooseProvider,
    /// Rebuild the runtime security for the sandbox mode, then call
    /// `permissions_switched` (or report the failure).
    SwitchPermissions(String),
    /// List the loaded plugins.
    ListPlugins,
    /// Prepare a plugin run (no name: offer the plugins).
    RunPlugin { name: String, prompt: String },
    /// Estimate the transcript's tokens, then call `report_tokens`.
    CountTokens,
    /// Put the text on the clipboard.
    Copy(String),
    /// Write the session, then report the result.
    SaveSession,
    /// List saved sessions, or restore one (`sub` is `restore` or `load`).
    Sessions { sub: String, id: String },
}

/// The `i`-th word, or nothing.
pub open spec fn word_at(w: Seq<Seq<char>>, i: int) -> Seq<char> {
    if 0 <= i < w.len() {
        w[i]
    } else {
        seq![]
    }
}

/// The words from the `i`-th on, joined by single spaces.
pub open spec fn words_from(w: Seq<Seq<char>>, i: int) -> Seq<char> {
    if 0 <= i < w.len() {
        join(w.skip(i), " "@)
    } else {
        seq![]
    }
}

pub open spec fn on_off(b: bool) -> Seq<char> {
    if b {
        "on"@
    } else {
        "off"@
    }
}

/// The `/status` line.
pub open spec fn status_line(a: App) -> Seq<char> {
    let provider = if a.current_provider@.len() == 0 {
        "unresolved"@
    } else {
        a.current_provider@
    };
    "model="@ + a.current_model@ + " provider="@ + provider + " messages="@ + decimal(
        a.messages@.len(),
    ) + " tokens="@ + decimal(a.token_count as nat) + " transcript="@ + on_off(a.transcript_mode)
        + " sandbox="@ + a.sandbox_mode@ + " plugins="@ + decimal(a.plugin_count as nat)
}

/// The position of a sandbox mode in the menu, the first when unknown.
pub open spec fn mode_index(mode: Seq<char>) -> usize {
    if mode == "project"@ {
        0
    } else if mode == "strict"@ {
        1
    } else if mode == "permissive"@ {
        2
    } else if mode == "off"@ {
        3
    } else {
        0
    }
}

pub open spec fn is_mode_name(m: Seq<char>) -> bool {
    m == "project"@ || m == "strict"@ || m == "permissive"@ || m == "off"@
}

/// The lines of the `/queue` listing.
pub open spec fn queue_lines(q: Seq<String>) -> Seq<Seq<char>> {
    Seq::new(q.len(), |i: int| "  "@ + decimal((i + 1) as nat) + ". "@ + summary_of(q[i]@, 80))
}

pub open spec fn queue_listing(q: Seq<String>) -> Seq<char> {
    decimal(q.len()) + " queued prompt(s) · /queue clear to drop:\n"@ + join(queue_lines(q), "\n"@)
}

/// The notice `/find` gives without a query.
pub open spec fn search_status(a: App) -> Seq<char> {
    if a.search.query@.len() == 0 {
        "Usage: /find <text>"@
    } else if a.search.index is Some && a.search.matches@.len() > 0 {
        "Search: '"@ + a.search.query@ + "' ("@ + decimal((a.search.index->0 + 1) as nat) + "/"@
            + decimal(a.search.matches@.len()) + "). Use /next, /prev, Esc to clear."@
    } else {
        "Search: '"@ + a.search.query@ + "' (no matches)."@
    }
}

pub open spec fn trace_text(on: bool) -> Seq<char> {
    if on {
        "Trace on. Reasoning will be shown inline."@
    } else {
        "Trace off. Reasoning hidden by default · Ctrl+O expands the latest block."@
    }
}

pub open spec fn is_effort_level(l: Seq<char>) -> bool {
    l == "low"@ || l == "medium"@ || l == "high"@ || l == "xhigh"@ || l == "max"@
}

/// What a slash command does to the state, and what it leaves to the
/// caller.
pub open spec fn slash_effect(a: App, b: App, text: Seq<char>, r: SlashOutcome) -> bool {
    let w = words(text);
    let cmd = word_at(w, 0);
    let arg1 = word_at(w, 1);
    let rest = words_from(w, 1);
    let handled = r is Handled;
    if !(text.len() > 0 && text[0] == '/') {
        r is NotCommand && b == a
    } else if cmd == "/help"@ {
        handled && b == (App { help_open: true, ..a })
    } else if cmd == "/clear"@ {
        handled && b.messages@.len() == 0 && b == (App {
            messages: b.messages,
            help_open: false,
            ..cancelled(a)
        })
    } else if cmd == "/new"@ {
        handled && exists|mid: App| reset(a, mid) && with_notice(mid, b, "Started a fresh agent context."@)
    } else if cmd == "/model"@ {
        if rest.len() == 0 {
            r is ChooseModel && b == a
        } else {
            handled && b.current_model@ == rest && b.previous_model@.len() == 0
                && b.current_provider@.len() == 0 && with_notice(
                App {
                    current_model: b.current_model,
                    previous_model: b.previous_model,
                    current_provider: b.current_provider,
                    status: AppStatus::Ready,
                    agent_ready: false,
                    ..cancelled(a)
                },
                b,
                "Model switched to "@ + rest + "."@,
            )
        }
    } else if cmd == "/status"@ {
        handled && with_notice(a, b, status_line(a))
    } else if cmd == "/permissions"@ || cmd == "/permission"@ {
        if arg1.len() == 0 {
            handled && b.menu is Some && b.menu->0.kind == MenuKind::Permissions
                && crate::commands::strings_view(b.menu->0.options@) == permission_mode_names()
                && b.menu->0.index == mode_index(a.sandbox_mode@) && b == (App { menu: b.menu, ..a })
        } else if is_mode_name(lower(trim(arg1))) {
            (r matches SlashOutcome::SwitchPermissions(m) && m@ == lower(trim(arg1))) && b == a
        } else {
            handled && with_notice(a, b, "Usage: /permissions <project|strict|permissive|off>"@)
        }
    } else if cmd == "/plugins"@ {
        r is ListPlugins && b == a
    } else if cmd == "/plugin"@ {
        (r matches SlashOutcome::RunPlugin { name, prompt } && name@ == arg1 && prompt@
            == words_from(w, 2)) && b == a
    } else if cmd == "/provider"@ {
        if rest.len() == 0 {
            r is ChooseProvider && b == a
        } else {
            handled && b.current_provider@ == rest && b.provider_override == Some(b.current_provider)
                && with_notice(
                App {
                    provider_override: b.provider_override,
                    current_provider: b.current_provider,
                    agent_ready: false,
                    ..cancelled(a)
                },
                b,
                "Provider override set. Agent will rebuild next turn."@,
            )
        }
    } else if cmd == "/tokens"@ {
        r is CountTokens && b == a
    } else {
        slash_more_effect(a, b, w, r)
    }
}



/// The first position of a text in a list.
pub open spec fn position_of_text(v: Seq<String>, t: Seq<char>) -> Option<usize>
    decreases v.len(),
{
    if v.len() == 0 {
        None
    } else {
        match position_of_text(v.drop_last(), t) {
            Some(k) => Some(k),
            None => if v.last()@ == t {
                Some((v.len() - 1) as usize)
            } else {
                None
            },
        }
    }
}

fn find_text(v: &Vec<String>, t: &str) -> (r: Option<usize>)
    ensures
        r == position_of_text(v@, t@),
{
    let tc = chars_of(t);
    for i in 0..v.len()
        invariant
            tc@ == t@,
            position_of_text(v@.take(i as int), t@) is None,
    {
        let ghost p = v@.take(i + 1);
        assert(p.drop_last() =~= v@.take(i as int));
        if eq_str(&tc, v[i].as_str()) {
            proof {
                lemma_position_prefix(v@, t@, i + 1);
            }
            return Some(i);
        }
    }
    assert(v@.take(v.len() as int) =~= v@);
    None
}

proof fn lemma_position_prefix(v: Seq<String>, t: Seq<char>, n: int)
    requires
        0 < n <= v.len(),
        position_of_text(v.take(n), t) is Some,
    ensures
        position_of_text(v, t) == position_of_text(v.take(n), t),
    decreases v.len() - n,
{
    if n < v.len() {
        assert(v.take(n + 1).drop_last() =~= v.take(n));
        lemma_position_prefix(v, t, n + 1);
    } else {
        assert(v.take(n) =~= v);
    }
}

fn word_or_empty(w: &Vec<Vec<char>>, i: usize) -> (r: Vec<char>)
    ensures
        r@ == word_at(vv(w@), i as int),
{
    if i < w.len() {
        let r = crate::text::slice_chars(&w[i], 0, w[i].len());
        assert(r@ =~= w@[i as int]@);
        r
    } else {
        Vec::new()
    }
}

fn words_after(w: &Vec<Vec<char>>, i: usize) -> (r: Vec<char>)
    ensures
        r@ == words_from(vv(w@), i as int),
{
    if i >= w.len() {
        return Vec::new();
    }
    let mut tail: Vec<Vec<char>> = Vec::new();
    let mut k = i;
    while k < w.len()
        invariant
            i <= k <= w.len(),
            vv(tail@) == vv(w@).subrange(i as int, k as int),
        decreases w.len() - k,
    {
        let item = crate::text::slice_chars(&w[k], 0, w[k].len());
        assert(item@ =~= w@[k as int]@);
        let ghost before = vv(tail@);
        tail.push(item);
        assert(vv(tail@) =~= before.push(vv(w@)[k as int]));
        assert(vv(tail@) =~= vv(w@).subrange(i as int, k + 1));
        k += 1;
    }
    assert(vv(w@).subrange(i as int, w.len() as int) =~= vv(w@).skip(i as int));
    let sep = chars_of(" ");
    join_chars(&tail, &sep)
}

fn mode_position(mode: &str) -> (r: usize)
    ensures
        r == mode_index(mode@),
{
    let m = chars_of(mode);
    if eq_str(&m, "project") {
        0
    } else if eq_str(&m, "strict") {
        1
    } else if eq_str(&m, "permissive") {
        2
    } else if eq_str(&m, "off") {
        3
    } else {
        0
    }
}

fn push_decimal(v: &mut Vec<char>, n: u128)
    ensures
        final(v)@ == old(v)@ + decimal(n as nat),
{
    let d = decimal_chars(n);
    extend_chars(v, &d);
}


pub open spec fn slash_more_effect(a: App, b: App, w: Seq<Seq<char>>, r: SlashOutcome) -> bool {
    let cmd = word_at(w, 0);
    let arg1 = word_at(w, 1);
    let rest = words_from(w, 1);
    let handled = r is Handled;
    if cmd == "/find"@ || cmd == "/search"@ {
        handled && if rest.len() == 0 {
            with_notice(a, b, search_status(a))
        } else {
            started_search(a, b, rest)
        }
    } else if cmd == "/next"@ {
        handled && jumped_next(a, b)
    } else if cmd == "/prev"@ || cmd == "/previous"@ {
        handled && jumped_prev(a, b)
    } else if cmd == "/trace"@ {
        handled && with_notice(
            App { transcript_mode: !a.transcript_mode, ..a },
            b,
            trace_text(!a.transcript_mode),
        )
    } else if cmd == "/effort"@ {
        handled && if arg1 == "off"@ || arg1 == "none"@ {
            with_notice(
                App { thinking_effort: None, agent_ready: false, ..cancelled(a) },
                b,
                "Thinking effort: auto (model default). Agent will rebuild."@,
            )
        } else if is_effort_level(arg1) {
            b.thinking_effort is Some && b.thinking_effort->0@ == arg1 && with_notice(
                App { thinking_effort: b.thinking_effort, agent_ready: false, ..cancelled(a) },
                b,
                "Thinking effort: "@ + arg1 + ". Agent will rebuild next turn."@,
            )
        } else if arg1.len() == 0 {
            with_notice(
                a,
                b,
                "Thinking effort: "@ + (if a.thinking_effort is Some {
                    a.thinking_effort->0@
                } else {
                    "auto"@
                }) + ". Use /effort <off|low|medium|high|xhigh|max>."@,
            )
        } else {
            with_notice(a, b, "Usage: /effort <off|low|medium|high|xhigh|max>"@)
        }
    } else {
        slash_tail_effect(a, b, w, r)
    }
}


pub open spec fn slash_tail_effect(a: App, b: App, w: Seq<Seq<char>>, r: SlashOutcome) -> bool {
    let cmd = word_at(w, 0);
    let arg1 = word_at(w, 1);
    let rest = words_from(w, 1);
    let handled = r is Handled;
    if cmd == "/expand"@ {
        handled && if a.messages@.len() > 0 && a.messages@.last().role == Role::Tool {
            b == (App { messages: b.messages, ..a }) && b.messages@ == a.messages@.update(
                a.messages@.len() - 1,
                ChatMessage { collapsed: !a.messages@.last().collapsed, ..a.messages@.last() },
            )
        } else {
            b == a
        }
    } else if cmd == "/copy"@ {
        match last_answer(a.messages@) {
            Some(i) => (r matches SlashOutcome::Copy(t) && t@ == a.messages@[i].content@)
                && with_notice(a, b, "Copied to clipboard"@),
            None => handled && b == a,
        }
    } else if cmd == "/save"@ {
        if a.session is Some {
            r is SaveSession && b == a
        } else {
            handled && with_notice(a, b, "No session to save yet. Send a message first."@)
        }
    } else if cmd == "/queue"@ {
        handled && if arg1 == "clear"@ {
            b.queued_inputs@.len() == 0 && with_notice(
                App { queued_inputs: b.queued_inputs, ..a },
                b,
                "Cleared "@ + decimal(a.queued_inputs@.len()) + " queued prompt(s)."@,
            )
        } else if a.queued_inputs@.len() == 0 {
            with_notice(a, b, "Queue is empty."@)
        } else {
            with_notice(a, b, queue_listing(a.queued_inputs@))
        }
    } else if cmd == "/sessions"@ {
        (r matches SlashOutcome::Sessions { sub, id } && sub@ == (if arg1.len() == 0 {
            "list"@
        } else {
            arg1
        }) && id@ == word_at(w, 2)) && b == a
    } else if cmd == "/quit"@ || cmd == "/exit"@ {
        handled && b == (App { should_quit: true, ..a })
    } else {
        handled && with_notice(a, b, "Unknown command: "@ + cmd + ". Type /help for shortcuts."@)
    }
}


/// What submitting the input leaves for the caller to do.
#[derive(Debug)]
pub enum SubmitStep {
    /// Nothing to submit.
    Nothing,
    /// The input was a slash command, with what it asks for.
    Slash(SlashOutcome),
    /// A reply is running: the prompt was queued.
    Queued,
    /// Run the shell command, then call `bash_finished`.
    Bash(String),
    /// Start a model turn for the prompt (call `begin_model_turn`).
    ModelTurn(String),
}

/// `b` is `a` with the composer emptied.
pub open spec fn cleared_input(a: App, b: App) -> bool {
    b.input@.len() == 0 && b == (App { input: b.input, input_cursor: 0, suggestion_index: 0, ..a })
}

/// Whether a loaded plugin answers to a name: the trimmed name itself, or
/// the same ignoring ASCII case.
pub open spec fn plugin_named(names: Seq<String>, name: Seq<char>) -> bool {
    exists|i: int| 0 <= i < names.len() && #[trigger] names_match(names[i]@, name)
}

pub open spec fn names_match(n: Seq<char>, name: Seq<char>) -> bool {
    n == trim(name) || lower(n) == lower(trim(name))
}

/// `c` is the first loaded plugin that answers to the name.
pub open spec fn picked_plugin(names: Seq<String>, name: Seq<char>, c: Seq<char>) -> bool {
    exists|i: int|
        0 <= i < names.len() && c == names[i]@ && #[trigger] names_match(names[i]@, name) && forall|j: int|
            0 <= j < i ==> !names_match(names[j]@, name)
}

/// Whether a reply is running.
pub open spec fn busy(a: App) -> bool {
    a.active_turn_id is Some || a.status is Streaming
}

/// `b` is `h` with a prompt queued and the queue noted.
pub open spec fn queued_step(h: App, b: App, t: Seq<char>) -> bool {
    &&& b.queued_inputs@.len() == h.queued_inputs@.len() + 1
    &&& b.queued_inputs@.take(h.queued_inputs@.len() as int) == h.queued_inputs@
    &&& b.queued_inputs@.last()@ == t
    &&& with_notice(App { queued_inputs: b.queued_inputs, ..h }, b, queued_text(b.queued_inputs@.len()))
}

/// What submitting the (trimmed, non-empty) input `t` does once it is in the
/// history.
pub open spec fn submit_after_history(h: App, b: App, t: Seq<char>, r: SubmitStep) -> bool {
    if t[0] == '/' {
        r matches SubmitStep::Slash(o) && exists|mid: App|
            #[trigger] slash_effect(h, mid, t, o) && if o is RunPlugin {
                b == mid
            } else {
                b.input@.len() == 0 && b == (App {
                    input: b.input,
                    input_cursor: 0,
                    scroll_offset: 0,
                    suggestion_index: 0,
                    ..mid
                })
            }
    } else if busy(h) {
        r is Queued && exists|mid: App| #[trigger] queued_step(h, mid, t) && cleared_input(mid, b)
    } else if t[0] == '!' {
        &&& (r matches SubmitStep::Bash(c) && c@ == t.drop_first())
        &&& b.messages@.len() == h.messages@.len() + 1
        &&& b.messages@.take(h.messages@.len() as int) == h.messages@
        &&& b.messages@.last().role == Role::User
        &&& b.messages@.last().content@ == t
        &&& b.input@.len() == 0
        &&& b == (App {
            messages: b.messages,
            input: b.input,
            input_cursor: 0,
            suggestion_index: 0,
            scroll_offset: 0,
            status: AppStatus::Streaming,
            stream_started: true,
            ..h
        })
    } else {
        (r matches SubmitStep::ModelTurn(p) && p@ == t) && b == h
    }
}

/// What submitting the input does: nothing for blank input; otherwise the
/// trimmed text goes into the history, then runs as a slash command, is
/// queued behind a running reply, runs as a shell command (`!`), or starts
/// a model turn.
pub open spec fn submit_effect(a: App, b: App, r: SubmitStep) -> bool {
    let t = trim(a.input@);
    if t.len() == 0 {
        r is Nothing && b == a
    } else {
        exists|h: App| #[trigger] add_history_effect(a, h, t) && submit_after_history(h, b, t, r)
    }
}

/// `b` is `a` with a submitted text recorded in the input history.
pub open spec fn add_history_effect(a: App, b: App, text: Seq<char>) -> bool {
    &&& b.input_history@.len() == (if a.input_history@.len() > 0 && a.input_history@.last()@ == text {
        a.input_history@.len()
    } else {
        a.input_history@.len() + 1
    })
    &&& b.input_history@.take(a.input_history@.len() as int) == a.input_history@
    &&& b.input_history@.last()@ == text
    &&& b == (App { input_history: b.input_history, history_index: None, ..a })
}

impl App {
    /// A fresh UI: no messages, the default model, ready.
    pub fn new() -> (r: App)
        ensures
            app_inv(r),
            r.messages@.len() == 0,
            r.input@.len() == 0,
            r.input_cursor == 0,
            r.status is Ready,
            r.current_model@ == "deepseek-v4-flash"@,
            r.previous_model@.len() == 0,
            r.current_provider@.len() == 0,
            r.token_count == 0,
            r.scroll_offset == 0,
            r.active_turn_id is None,
            r.next_turn_id == 1,
            r.active_assistant_index is None,
            r.queued_inputs@.len() == 0,
            r.history_index is None,
            r.input_history@.len() == 0,
            r.search.query@.len() == 0,
            r.search.matches@.len() == 0,
            r.context_limit == 128000,
            r.menu is None,
            !r.transcript_mode,
            !r.help_open,
            !r.should_quit,
            !r.agent_ready,
            r.session is None,
            r.sandbox_mode@ == "project"@,
            r.plugin_count == 0,
            !r.save_sessions,
            r.provider_override is None,
            r.thinking_effort is None,
            r.pending_user is None,
            r.spinner_index == 0,
            r.suggestion_index == 0,
            r.draft_before_history@.len() == 0,
            r.search.index is None && r.search.target_message is None,
            !r.stream_started && !r.reasoning_started && !r.reasoning_timed,
    {
        App {
            should_quit: false,
            messages: Vec::new(),
            input: Vec::new(),
            input_cursor: 0,
            status: AppStatus::Ready,
            current_model: "deepseek-v4-flash".to_owned(),
            previous_model: String::new(),
            current_provider: String::new(),
            token_count: 0,
            scroll_offset: 0,
            help_open: false,
            transcript_mode: false,
            spinner_index: 0,
            provider_override: None,
            save_sessions: false,
            pending_user: None,
            active_turn_id: None,
            next_turn_id: 1,
            active_assistant_index: None,
            queued_inputs: VecDeque::new(),
            suggestion_index: 0,
            input_history: Vec::new(),
            history_index: None,
            draft_before_history: Vec::new(),
            thinking_effort: None,
            context_limit: 128000,
            menu: None,
            search: SearchState::cleared(),
            sandbox_mode: "project".to_owned(),
            plugin_count: 0,
            agent_ready: false,
            session: None,
            stream_started: false,
            reasoning_started: false,
            reasoning_timed: false,
        }
    }

    /// Whether stream events of a turn still belong to the active turn.
    pub fn accepts_turn(&self, turn_id: u64) -> (r: bool)
        ensures
            r == (self.active_turn_id == Some(turn_id)),
    {
        match self.active_turn_id {
            Some(t) => t == turn_id,
            None => false,
        }
    }

    /// Starts a turn for a user prompt: it gets the next turn id, and its
    /// reply will be the next message. Turn ids skip zero when they wrap.
    pub fn begin_turn(&mut self, user: String) -> (r: u64)
        ensures
            app_inv(*old(self)) ==> app_inv(*final(self)),
            r == old(self).next_turn_id,
            final(self).next_turn_id == (if old(self).next_turn_id == u64::MAX {
                1
            } else {
                old(self).next_turn_id + 1
            }),
            final(self).active_turn_id == Some(r),
            final(self).active_assistant_index == Some(old(self).messages@.len() as usize),
            final(self).pending_user == Some(user),
            *final(self) == (App {
                next_turn_id: final(self).next_turn_id,
                active_turn_id: final(self).active_turn_id,
                active_assistant_index: final(self).active_assistant_index,
                pending_user: final(self).pending_user,
                ..*old(self)
            }),
    {
        let turn_id = self.next_turn_id;
        let next = self.next_turn_id.wrapping_add(1);
        self.next_turn_id = if next < 1 {
            1
        } else {
            next
        };
        self.active_turn_id = Some(turn_id);
        self.active_assistant_index = Some(self.messages.len());
        self.pending_user = Some(user);
        turn_id
    }

    /// Drops the active turn: its later stream events are ignored.
    pub fn cancel_active_turn(&mut self)
        ensures
            app_inv(*old(self)) ==> app_inv(*final(self)),
            final(self).active_turn_id is None,
            final(self).active_assistant_index is None,
            final(self).pending_user is None,
            old(self).status is Streaming ==> final(self).status is Ready,
            !(old(self).status is Streaming) ==> final(self).status == old(self).status,
            *final(self) == cancelled(*old(self)),
    {
        self.active_turn_id = None;
        self.active_assistant_index = None;
        self.pending_user = None;
        self.stream_started = false;
        self.reasoning_started = false;
        self.reasoning_timed = false;
        if matches!(self.status, AppStatus::Streaming) {
            self.status = AppStatus::Ready;
        }
    }

    /// Appends a system notice to the transcript.
    pub fn push_system_message(&mut self, content: &str)
        ensures
            app_inv(*old(self)) ==> app_inv(*final(self)),
            final(self).messages@.len() == old(self).messages@.len() + 1,
            final(self).messages@.take(old(self).messages@.len() as int) == old(self).messages@,
            is_system_message(final(self).messages@.last(), content@),
            *final(self) == (App { messages: final(self).messages, ..*old(self) }),
    {
        self.messages.push(ChatMessage::new(Role::System, content.to_owned()));
        assert(self.messages@.take(old(self).messages@.len() as int) =~= old(self).messages@);
    }

    /// Keeps a prompt to run after the current reply.
    pub fn queue_input(&mut self, text: String)
        ensures
            app_inv(*old(self)) ==> app_inv(*final(self)),
            final(self).queued_inputs@ == old(self).queued_inputs@.push(text),
            final(self).messages@.len() == old(self).messages@.len() + 1,
            final(self).messages@.take(old(self).messages@.len() as int) == old(self).messages@,
            is_system_message(
                final(self).messages@.last(),
                queued_text(final(self).queued_inputs@.len()),
            ),
            *final(self) == (App {
                queued_inputs: final(self).queued_inputs,
                messages: final(self).messages,
                ..*old(self)
            }),
    {
        self.queued_inputs.push_back(text);
        let count = self.queued_inputs.len();
        let mut m = chars_of("Queued prompt #");
        extend_chars(&mut m, &decimal_chars(count as u128));
        extend_str(&mut m, ". It will run after the current response.");
        let s = string_of(&m);
        self.push_system_message(s.as_str());
    }

    /// Stops searching.
    pub fn clear_search(&mut self)
        ensures
            app_inv(*old(self)) ==> app_inv(*final(self)),
            final(self).search.query@.len() == 0,
            final(self).search.matches@.len() == 0,
            final(self).search.index is None,
            final(self).search.target_message is None,
            *final(self) == (App { search: final(self).search, ..*old(self) }),
    {
        self.search = SearchState::cleared();
    }

    fn search_hits(&self, query: &Vec<char>) -> (r: Vec<usize>)
        ensures
            r@ == hits(self.messages@, query@, self.transcript_mode),
            forall|k: int| 0 <= k < r@.len() ==> #[trigger] r@[k] < self.messages@.len(),
    {
        let lowered = to_lower(query);
        let mut r: Vec<usize> = Vec::new();
        for i in 0..self.messages.len()
            invariant
                lowered@ == lower(query@),
                r@ == hits(self.messages@.take(i as int), query@, self.transcript_mode),
                forall|k: int| 0 <= k < r@.len() ==> #[trigger] r@[k] < i,
        {
            let ghost t = self.messages@.take(i + 1);
            assert(t.drop_last() =~= self.messages@.take(i as int));
            let text = message_search_content(&self.messages[i], self.transcript_mode);
            let lt = to_lower(&chars_of(text.as_str()));
            if contains_chars(&lt, &lowered) {
                r.push(i);
            }
        }
        assert(self.messages@.take(self.messages.len() as int) =~= self.messages@);
        r
    }

    /// Scrolls so that the search target is in view.
    pub fn scroll_to_search_target(&mut self)
        ensures
            app_inv(*old(self)) ==> app_inv(*final(self)),
            match old(self).search.target_message {
                Some(t) => final(self).scroll_offset == scroll_for_target(old(self).messages@, t as int),
                None => final(self).scroll_offset == old(self).scroll_offset,
            },
            *final(self) == (App { scroll_offset: final(self).scroll_offset, ..*old(self) }),
    {
        let target = match self.search.target_message {
            Some(t) => t,
            None => {
                return;
            },
        };
        let from = if target >= self.messages.len() {
            self.messages.len()
        } else {
            target + 1
        };
        let ghost rest = self.messages@.skip(from as int);
        let mut total: usize = 0;
        let mut i = from;
        while i < self.messages.len()
            invariant
                from <= i <= self.messages.len(),
                rest == self.messages@.skip(from as int),
                total == rows_total(rest.take(i - from)),
            decreases self.messages.len() - i,
        {
            assert(rest.take(i + 1 - from).drop_last() =~= rest.take(i - from));
            assert(rest.take(i + 1 - from).last() == self.messages@[i as int]);
            let rows = estimated_message_rows(&self.messages[i]);
            total = total.saturating_add(rows);
            i += 1;
        }
        assert(rest.take(i - from) =~= rest);
        self.scroll_offset = total.saturating_add(2);
    }

    /// Searches the transcript for a query (trimmed, ignoring ASCII case),
    /// moves to the first match and reports the result.
    pub fn start_search(&mut self, query: String)
        ensures
            app_inv(*old(self)) ==> app_inv(*final(self)),
            started_search(*old(self), *final(self), query@),
    {
        let qc = chars_of(query.as_str());
        let q = trim_chars(&qc);
        if q.len() == 0 {
            self.clear_search();
            return;
        }
        let matches = self.search_hits(&q);
        let n = matches.len();
        let first = if n > 0 {
            Some(matches[0])
        } else {
            None
        };
        let qs = string_of(&q);
        self.search = SearchState {
            query: qs,
            target_message: first,
            index: if n > 0 {
                Some(0)
            } else {
                None
            },
            matches,
        };
        if n == 0 {
            self.scroll_offset = 0;
            let mut m = chars_of("No matches for '");
            extend_chars(&mut m, &q);
            extend_str(&mut m, "'.");
            let s = string_of(&m);
            self.push_system_message(s.as_str());
        } else {
            self.scroll_to_search_target();
            let mut m = chars_of("Search: '");
            extend_chars(&mut m, &q);
            extend_str(&mut m, "' (");
            extend_chars(&mut m, &decimal_chars(1));
            extend_str(&mut m, "/");
            extend_chars(&mut m, &decimal_chars(n as u128));
            extend_str(&mut m, ").");
            let s = string_of(&m);
            self.push_system_message(s.as_str());
        }
    }

    fn no_matches_notice(&mut self)
        ensures
            *final(self) == (App { messages: final(self).messages, ..*old(self) }),
            final(self).messages@.len() == old(self).messages@.len() + 1,
            final(self).messages@.take(old(self).messages@.len() as int) == old(self).messages@,
            is_system_message(final(self).messages@.last(), no_matches_text(old(self).search.query@)),
    {
        let mut m = chars_of("No matches for '");
        extend_str(&mut m, self.search.query.as_str());
        extend_str(&mut m, "'.");
        let s = string_of(&m);
        self.push_system_message(s.as_str());
    }

    /// Moves to the next match, wrapping to the first after the last.
    pub fn jump_search_next(&mut self)
        requires
            old(self).search.index matches Some(i) ==> i < usize::MAX,
        ensures
            app_inv(*old(self)) ==> app_inv(*final(self)),
            jumped_next(*old(self), *final(self)),
    {
        if self.search.matches.len() == 0 {
            if self.search.is_active() {
                self.no_matches_notice();
            }
            return;
        }
        let n = self.search.matches.len();
        let next = match self.search.index {
            Some(i) => (i + 1) % n,
            None => 0,
        };
        self.search.index = Some(next);
        self.search.target_message = Some(self.search.matches[next]);
        self.scroll_to_search_target();
    }

    /// Moves to the previous match, wrapping to the last before the first.
    pub fn jump_search_prev(&mut self)
        ensures
            app_inv(*old(self)) ==> app_inv(*final(self)),
            jumped_prev(*old(self), *final(self)),
    {
        if self.search.matches.len() == 0 {
            if self.search.is_active() {
                self.no_matches_notice();
            }
            return;
        }
        let n = self.search.matches.len();
        let prev = match self.search.index {
            Some(i) => if i == 0 {
                n - 1
            } else {
                i - 1
            },
            None => 0,
        };
        self.search.index = Some(prev);
        self.search.target_message = if prev < n {
            Some(self.search.matches[prev])
        } else {
            None
        };
        self.scroll_to_search_target();
    }

    /// Recomputes the matches of the active search after the transcript
    /// changed, keeping the current target when it still matches.
    pub fn refresh_search_matches(&mut self)
        ensures
            app_inv(*old(self)) ==> app_inv(*final(self)),
            refreshed_search(old(self).search, old(self).messages@, old(self).transcript_mode, final(self).search),
            *final(self) == (App { search: final(self).search, ..*old(self) }),
    {
        if !self.search.is_active() {
            return;
        }
        let q = chars_of(self.search.query.as_str());
        let matches = self.search_hits(&q);
        let mut index: Option<usize> = match self.search.target_message {
            Some(t) => position_of(&matches, t),
            None => None,
        };
        if index.is_none() && matches.len() > 0 {
            index = Some(0);
        }
        let target = match index {
            Some(k) => Some(matches[k]),
            None => None,
        };
        self.search.matches = matches;
        self.search.index = index;
        self.search.target_message = target;
    }

    /// Records the finished exchange in the session when sessions are
    /// saved: the pending prompt and the last reply with visible text.
    /// Returns whether the session is to be written.
    pub fn save_pending_turn(&mut self) -> (saved: bool)
        ensures
            app_inv(*old(self)) ==> app_inv(*final(self)),
            !old(self).save_sessions ==> !saved && *final(self) == (App {
                pending_user: None,
                ..*old(self)
            }),
            old(self).save_sessions && old(self).pending_user is None ==> !saved && *final(self)
                == *old(self),
            old(self).save_sessions && old(self).pending_user is Some ==> match last_reply(
                old(self).messages@,
            ) {
                None => !saved && *final(self) == (App { pending_user: None, ..*old(self) }),
                Some(k) => saved && final(self).session is Some && (exists|turn: Seq<SessionMessage>|
                    transcript_turn(old(self).messages@, old(self).messages@[k].content@, turn)
                        && #[trigger] records_turn(
                        old(self).session,
                        old(self).current_model@,
                        old(self).current_provider@,
                        old(self).pending_user->0@,
                        turn,
                        final(self).session->0,
                    )) && *final(self) == (App {
                    pending_user: None,
                    session: final(self).session,
                    ..*old(self)
                }),
            },
    {
        if !self.save_sessions {
            self.pending_user = None;
            return false;
        }
        let user = match self.pending_user.take() {
            Some(u) => u,
            None => {
                return false;
            },
        };
        let found = last_reply_index(&self.messages);
        proof {
            lemma_last_reply(self.messages@);
        }
        let k = match found {
            Some(k) => k,
            None => {
                return false;
            },
        };
        let assistant = self.messages[k].content.clone();
        let turn = transcript_turn_messages(&self.messages, assistant);
        let ghost tv = turn@;
        let prev = self.session.take();
        let session = finalize_session_exchange(
            prev,
            self.current_model.clone(),
            self.current_provider.clone(),
            user,
            turn,
        );
        self.session = Some(session);
        assert(records_turn(
            old(self).session,
            old(self).current_model@,
            old(self).current_provider@,
            old(self).pending_user->0@,
            tv,
            self.session->0,
        ));
        true
    }


    #[verifier::rlimit(50)]
    #[verifier::spinoff_prover]
    fn stream_into<E: Fn(&String) -> usize>(
        &mut self,
        k: usize,
        content: &String,
        reasoning: Option<String>,
        error: &Option<String>,
        estimate: &E,
    )
        requires
            forall|s: String| call_requires(*estimate, (&s,)),
            k <= old(self).messages@.len(),
            k < old(self).messages@.len() ==> old(self).messages@[k as int].role == Role::Assistant,
        ensures
            app_inv(*old(self)) ==> app_inv(*final(self)),
            ({
                let n = old(self).messages@.len();
                let prev_content = if k < n {
                    old(self).messages@[k as int].content@
                } else {
                    Seq::<char>::empty()
                };
                let prev_reasoning = if k < n {
                    opt_view(old(self).messages@[k as int].reasoning)
                } else {
                    None
                };
                let m = final(self).messages@[k as int];
                &&& final(self).messages@.len() == (if k < n { n } else { n + 1 })
                &&& forall|j: int|
                    0 <= j < n && j != k ==> #[trigger] final(self).messages@[j]
                        == old(self).messages@[j]
                &&& m.role == Role::Assistant
                &&& m.content@ == with_error(prev_content + content@, opt_seq(*error))
                &&& opt_view(m.reasoning) == with_reasoning(prev_reasoning, opt_seq(reasoning))
                &&& (k < n ==> m.tool == old(self).messages@[k as int].tool && m.collapsed
                    == old(self).messages@[k as int].collapsed && m.reasoning_collapsed
                    == old(self).messages@[k as int].reasoning_collapsed)
                &&& (k == n ==> m.tool is None && !m.collapsed && m.reasoning_collapsed)
                &&& counts_event(*estimate, old(self).token_count, *content, reasoning, final(self).token_count)
            }),
            *final(self) == (App {
                messages: final(self).messages,
                token_count: final(self).token_count,
                reasoning_started: final(self).reasoning_started,
                reasoning_timed: final(self).reasoning_timed,
                active_assistant_index: Some(k),
                ..*old(self)
            }),
    {
        let n = self.messages.len();
        let msg = if k < n {
            self.messages.remove(k)
        } else {
            ChatMessage::new(Role::Assistant, String::new())
        };
        let ghost rest = self.messages@;
        let mut tc: usize = 0;
        let mut tr: usize = 0;
        if !content.as_str().is_empty() {
            tc = estimate(content);
            self.token_count = self.token_count.saturating_add(tc);
        }
        if let Some(r) = &reasoning {
            tr = estimate(r);
            self.token_count = self.token_count.saturating_add(tr);
        }
        proof {
            assert(event_count(*estimate, old(self).token_count, *content, reasoning, tc, tr, self.token_count));
            assert(counts_event(*estimate, old(self).token_count, *content, reasoning, self.token_count));
        }
        if reasoning.is_some() {
            self.reasoning_started = true;
        } else if self.reasoning_started && !self.reasoning_timed {
            self.reasoning_timed = true;
        }
        let msg = streamed_message(msg, content.as_str(), reasoning, error);
        self.messages.insert(k, msg);
        self.active_assistant_index = Some(k);
        proof {
            assert forall|j: int| 0 <= j < n && j != k implies #[trigger] self.messages@[j]
                == old(self).messages@[j] by {
                if j < k {
                    assert(self.messages@[j] == rest[j]);
                } else {
                    assert(self.messages@[j] == rest[j - 1]);
                }
            }
        }
    }

    fn end_stream<E: Fn(&String) -> usize>(&mut self, error: Option<String>, done: bool, estimate: &E) -> (r: StreamOutcome)
        requires
            forall|s: String| call_requires(*estimate, (&s,)),
        ensures
            app_inv(*old(self)) ==> app_inv(*final(self)),
            final(self).messages == old(self).messages,
            error is Some ==> ({
                &&& final(self).token_count == old(self).token_count
                &&& final(self).session == old(self).session
                &&& final(self).status == AppStatus::Error(error->0)
                &&& final(self).active_turn_id is None
                &&& final(self).active_assistant_index is None
                &&& final(self).pending_user is None
                &&& !final(self).stream_started && !final(self).reasoning_started && !final(self).reasoning_timed
                &&& r == (StreamOutcome { finished: false, save_session: false })
                &&& final(self).search == old(self).search
            }),
            error is None && done ==> ({
                &&& final(self).status is Ready
                &&& final(self).active_turn_id is None
                &&& final(self).active_assistant_index is None
                &&& final(self).pending_user is None
                &&& !final(self).stream_started && !final(self).reasoning_started && !final(self).reasoning_timed
                &&& r.finished
                &&& refreshed_search(
                    old(self).search,
                    old(self).messages@,
                    old(self).transcript_mode,
                    final(self).search,
                )
                &&& recounted(*estimate, old(self).messages@, final(self).token_count)
                &&& saves_reply(
                    old(self).save_sessions,
                    old(self).pending_user,
                    old(self).messages@,
                    old(self).session,
                    old(self).current_model@,
                    old(self).current_provider@,
                    final(self).session,
                    r.save_session,
                )
            }),
            error is None && !done ==> *final(self) == *old(self) && r == (StreamOutcome {
                finished: false,
                save_session: false,
            }),
    {
        let no = StreamOutcome { finished: false, save_session: false };
        match error {
            Some(e) => {
                self.status = AppStatus::Error(e);
                self.active_turn_id = None;
                self.active_assistant_index = None;
                self.pending_user = None;
                self.stream_started = false;
                self.reasoning_started = false;
                self.reasoning_timed = false;
                no
            },
            None => {
                if done {
                    self.status = AppStatus::Ready;
                    let es = estimates_of(&self.messages, estimate);
                    self.recount_tokens(&es);
                    self.refresh_search_matches();
                    let saved = self.save_pending_turn();
                    self.active_assistant_index = None;
                    self.active_turn_id = None;
                    self.pending_user = None;
                    self.stream_started = false;
                    self.reasoning_started = false;
                    self.reasoning_timed = false;
                    StreamOutcome { finished: true, save_session: saved }
                } else {
                    no
                }
            },
        }
    }

    /// Applies a piece of the agent's streamed reply. Events of other turns
    /// are ignored. Text and reasoning are appended to the reply, an error is
    /// shown in it and ends the turn, and the end of the stream makes the UI
    /// ready again. `estimate` gives the token estimate of a text: each
    /// piece adds the estimates of its text and reasoning to the count, and
    /// the end of the reply recounts the count over all messages and records
    /// the finished exchange in the session.
    pub fn apply_stream_token<E: Fn(&String) -> usize>(
        &mut self,
        turn_id: u64,
        content: String,
        reasoning: Option<String>,
        done: bool,
        error: Option<String>,
        estimate: &E,
    ) -> (r: StreamOutcome)
        requires
            forall|s: String| call_requires(*estimate, (&s,)),
        ensures
            app_inv(*old(self)) ==> app_inv(*final(self)),
            stream_target(*old(self), turn_id, content@, opt_seq(reasoning), opt_seq(error)) is None
                ==> *final(self) == *old(self) && r == (StreamOutcome { finished: false, save_session: false }),
            stream_target(*old(self), turn_id, content@, opt_seq(reasoning), opt_seq(error)) matches Some(k)
                ==> ({
                let n = old(self).messages@.len();
                let prev_content = if k < n {
                    old(self).messages@[k].content@
                } else {
                    Seq::<char>::empty()
                };
                let prev_reasoning = if k < n {
                    opt_view(old(self).messages@[k].reasoning)
                } else {
                    None
                };
                let m = final(self).messages@[k];
                &&& final(self).messages@.len() == (if k < n { n } else { n + 1 })
                &&& forall|j: int|
                    0 <= j < n && j != k ==> #[trigger] final(self).messages@[j]
                        == old(self).messages@[j]
                &&& m.role == Role::Assistant
                &&& m.content@ == with_error(prev_content + content@, opt_seq(error))
                &&& opt_view(m.reasoning) == with_reasoning(prev_reasoning, opt_seq(reasoning))
                &&& (k < n ==> m.tool == old(self).messages@[k].tool && m.collapsed
                    == old(self).messages@[k].collapsed && m.reasoning_collapsed
                    == old(self).messages@[k].reasoning_collapsed)
                &&& (k == n ==> m.tool is None && !m.collapsed && m.reasoning_collapsed)
                &&& (error is Some || !done) ==> counts_event(
                    *estimate,
                    old(self).token_count,
                    content,
                    reasoning,
                    final(self).token_count,
                )
            }),
            stream_target(*old(self), turn_id, content@, opt_seq(reasoning), opt_seq(error)) is Some
                && error is Some ==> ({
                &&& final(self).status == AppStatus::Error(error->0)
                &&& final(self).active_turn_id is None
                &&& final(self).active_assistant_index is None
                &&& final(self).pending_user is None
                &&& !final(self).stream_started && !final(self).reasoning_started && !final(self).reasoning_timed
                &&& r == (StreamOutcome { finished: false, save_session: false })
                &&& final(self).search == old(self).search
                &&& final(self).session == old(self).session
            }),
            stream_target(*old(self), turn_id, content@, opt_seq(reasoning), opt_seq(error)) is Some
                && error is None && done ==> ({
                &&& final(self).status is Ready
                &&& final(self).active_turn_id is None
                &&& final(self).active_assistant_index is None
                &&& final(self).pending_user is None
                &&& !final(self).stream_started && !final(self).reasoning_started && !final(self).reasoning_timed
                &&& r.finished
                &&& refreshed_search(
                    old(self).search,
                    final(self).messages@,
                    old(self).transcript_mode,
                    final(self).search,
                )
                &&& recounted(*estimate, final(self).messages@, final(self).token_count)
                &&& saves_reply(
                    old(self).save_sessions,
                    old(self).pending_user,
                    final(self).messages@,
                    old(self).session,
                    old(self).current_model@,
                    old(self).current_provider@,
                    final(self).session,
                    r.save_session,
                )
            }),
            stream_target(*old(self), turn_id, content@, opt_seq(reasoning), opt_seq(error)) is Some
                && error is None && !done ==> ({
                &&& final(self).status == old(self).status
                &&& final(self).active_turn_id == old(self).active_turn_id
                &&& final(self).active_assistant_index == Some(
                    stream_target(*old(self), turn_id, content@, opt_seq(reasoning), opt_seq(error))->0 as usize,
                )
                &&& final(self).pending_user == old(self).pending_user
                &&& final(self).search == old(self).search
                &&& final(self).session == old(self).session
                &&& r == (StreamOutcome { finished: false, save_session: false })
            }),
    {
        let no = StreamOutcome { finished: false, save_session: false };
        if !self.accepts_turn(turn_id) {
            return no;
        }
        let has_payload = !content.as_str().is_empty() || reasoning.is_some() || error.is_some();
        let n = self.messages.len();
        let k = match self.active_assistant_index {
            Some(idx) if idx < n => idx,
            _ => {
                if has_payload {
                    n
                } else {
                    return no;
                }
            },
        };
        if k < n && self.messages[k].role != Role::Assistant {
            return no;
        }
        self.stream_into(k, &content, reasoning, &error, estimate);
        self.end_stream(error, done, estimate)
    }



    /// The snapshot taken of the file a tool call edits, before the call.
    pub fn call_snapshot(&self, call_id: &str) -> (r: Option<&FileSnapshot>)
        ensures
            match find_call(self.messages@, call_id@, 0) {
                Some(k) => r == match self.messages@[k].tool->0.file_before {
                    Some(f) => Some(&f),
                    None => None,
                },
                None => r is None,
            },
    {
        proof {
            lemma_find_call(self.messages@, call_id@, 0);
        }
        match find_call_index(&self.messages, call_id) {
            Some(k) => match &self.messages[k].tool {
                Some(t) => match &t.file_before {
                    Some(f) => Some(f),
                    None => None,
                },
                None => None,
            },
            None => None,
        }
    }

    fn drop_placeholder(&mut self)
        ensures
            final(self).messages@ == without_placeholder(old(self).messages@, old(self).active_assistant_index),
            final(self).active_assistant_index == (if final(self).messages@.len() < old(self).messages@.len() {
                None
            } else {
                old(self).active_assistant_index
            }),
            *final(self) == (App {
                messages: final(self).messages,
                active_assistant_index: final(self).active_assistant_index,
                ..*old(self)
            }),
    {
        match self.active_assistant_index {
            Some(idx) => {
                if idx < self.messages.len() {
                    let m = &self.messages[idx];
                    let empty_reasoning = match &m.reasoning {
                        Some(r) => r.as_str().is_empty(),
                        None => true,
                    };
                    if m.role == Role::Assistant && m.content.as_str().is_empty() && empty_reasoning {
                        self.messages.remove(idx);
                        self.active_assistant_index = None;
                    }
                }
            },
            None => {},
        }
    }

    /// Applies a tool call or its result to the transcript. Events of other
    /// turns are ignored. A finished call updates the message of that call,
    /// or adds one; a started call adds a message unless there is one.
    /// `file_diff` is the diff of the file the call edited (used when the
    /// call succeeded), `elapsed` the call's duration as shown.
    pub fn apply_tool_output(
        &mut self,
        turn_id: u64,
        call_id: String,
        name: String,
        arguments: String,
        result: Option<String>,
        file_before: Option<FileSnapshot>,
        file_diff: Option<FileDiffDisplay>,
        elapsed: &str,
    )
        ensures
            app_inv(*old(self)) ==> app_inv(*final(self)),
            old(self).active_turn_id != Some(turn_id) ==> *final(self) == *old(self),
            old(self).active_turn_id == Some(turn_id) ==> ({
                let ms1 = without_placeholder(old(self).messages@, old(self).active_assistant_index);
                let k = find_call(ms1, call_id@, 0);
                &&& final(self).scroll_offset == 0
                &&& refreshed_search(
                    old(self).search,
                    final(self).messages@,
                    old(self).transcript_mode,
                    final(self).search,
                )
                &&& final(self).active_assistant_index == (if ms1.len() < old(self).messages@.len() {
                    None
                } else {
                    old(self).active_assistant_index
                })
                &&& match result {
                    Some(r) => match k {
                        Some(k) => final(self).messages@.len() == ms1.len() && (forall|j: int|
                            0 <= j < ms1.len() && j != k ==> #[trigger] final(self).messages@[j]
                                == ms1[j]) && finished_tool_message(
                            ms1[k],
                            final(self).messages@[k],
                            r@,
                            file_diff,
                            elapsed@,
                        ),
                        None => final(self).messages@.len() == ms1.len() + 1
                            && final(self).messages@.take(ms1.len() as int) == ms1
                            && new_tool_message(
                            final(self).messages@.last(),
                            call_id@,
                            name@,
                            arguments@,
                            Some(r@),
                            file_before,
                            elapsed@,
                        ),
                    },
                    None => match k {
                        Some(_) => final(self).messages@ == ms1,
                        None => final(self).messages@.len() == ms1.len() + 1
                            && final(self).messages@.take(ms1.len() as int) == ms1
                            && new_tool_message(
                            final(self).messages@.last(),
                            call_id@,
                            name@,
                            arguments@,
                            None,
                            file_before,
                            elapsed@,
                        ),
                    },
                }
            }),
    {
        if !self.accepts_turn(turn_id) {
            return;
        }
        self.drop_placeholder();
        let ghost ms1 = self.messages@;
        proof {
            lemma_find_call(ms1, call_id@, 0);
        }
        let found = find_call_index(&self.messages, call_id.as_str());
        match result {
            Some(r) => match found {
                Some(k) => {
                    let msg = self.messages.remove(k);
                    let msg = finished_tool(msg, r, file_diff, elapsed);
                    self.messages.insert(k, msg);
                    proof {
                        assert forall|j: int| 0 <= j < ms1.len() && j != k implies #[trigger] self.messages@[j]
                            == ms1[j] by {
                            if j < k {
                                assert(self.messages@[j] == ms1[j]);
                            } else {
                                assert(self.messages@[j] == ms1[j]);
                            }
                        }
                    }
                },
                None => {
                    let msg = new_tool(call_id, name, arguments, Some(r), file_before, elapsed);
                    self.messages.push(msg);
                    assert(self.messages@.take(ms1.len() as int) =~= ms1);
                },
            },
            None => match found {
                Some(_) => {},
                None => {
                    let msg = new_tool(call_id, name, arguments, None, file_before, elapsed);
                    self.messages.push(msg);
                    assert(self.messages@.take(ms1.len() as int) =~= ms1);
                },
            },
        }
        self.scroll_offset = 0;
        self.refresh_search_matches();
    }


    /// The suggestions for the current input.
    pub fn slash_suggestions(&self) -> (r: Vec<SlashSuggestion>)
        ensures
            suggestions_view(r@) == suggestions_for(self.input@),
    {
        suggestions_for_input(&self.input)
    }

    /// Keeps the highlighted suggestion within the list.
    pub fn clamp_suggestion_index(&mut self)
        ensures
            app_inv(*old(self)) ==> app_inv(*final(self)),
            ({
                let n = suggestions_for(old(self).input@).len();
                final(self).suggestion_index == (if n == 0 {
                    0
                } else if old(self).suggestion_index >= n {
                    (n - 1) as usize
                } else {
                    old(self).suggestion_index
                })
            }),
            *final(self) == (App { suggestion_index: final(self).suggestion_index, ..*old(self) }),
    {
        let n = self.slash_suggestions().len();
        if n == 0 {
            self.suggestion_index = 0;
        } else if self.suggestion_index >= n {
            self.suggestion_index = n - 1;
        }
    }

    /// Replaces the input with the highlighted suggestion's completion.
    pub fn accept_selected_suggestion(&mut self)
        ensures
            app_inv(*old(self)) ==> app_inv(*final(self)),
            ({
                let sug = suggestions_for(old(self).input@);
                if old(self).suggestion_index < sug.len() {
                    &&& final(self).input@ == command_completion(sug[old(self).suggestion_index as int].0)
                    &&& final(self).input_cursor == final(self).input@.len()
                    &&& final(self).suggestion_index == 0
                    &&& *final(self) == (App {
                        input: final(self).input,
                        input_cursor: final(self).input_cursor,
                        suggestion_index: 0,
                        ..*old(self)
                    })
                } else {
                    *final(self) == *old(self)
                }
            }),
    {
        let sug = self.slash_suggestions();
        if self.suggestion_index < sug.len() {
            let c = sug[self.suggestion_index].completion();
            self.input = chars_of(c.as_str());
            self.input_cursor = self.input.len();
            self.suggestion_index = 0;
        }
    }

    /// Leaves history browsing, forgetting the draft kept for it.
    pub fn exit_history_mode(&mut self)
        ensures
            app_inv(*old(self)) ==> app_inv(*final(self)),
            old(self).history_index is Some ==> *final(self) == (App {
                history_index: None,
                draft_before_history: final(self).draft_before_history,
                ..*old(self)
            }) && final(self).draft_before_history@.len() == 0,
            old(self).history_index is None ==> *final(self) == *old(self),
    {
        if self.history_index.is_some() {
            self.history_index = None;
            self.draft_before_history = Vec::new();
        }
    }

    /// Records a submitted input, unless it repeats the last entry.
    pub fn add_to_history(&mut self, text: String)
        ensures
            app_inv(*old(self)) ==> app_inv(*final(self)),
            final(self).input_history@ == (if old(self).input_history@.len() > 0
                && old(self).input_history@.last()@ == text@ {
                old(self).input_history@
            } else {
                old(self).input_history@.push(text)
            }),
            *final(self) == (App {
                input_history: final(self).input_history,
                history_index: None,
                ..*old(self)
            }),
    {
        let n = self.input_history.len();
        let repeat = n > 0 && {
            let last = chars_of(self.input_history[n - 1].as_str());
            crate::text::eq_str(&last, text.as_str())
        };
        if !repeat {
            self.input_history.push(text);
        }
        self.history_index = None;
    }

    /// Shows the previous history entry; the first step back keeps the
    /// current input as a draft.
    pub fn navigate_history_prev(&mut self)
        ensures
            app_inv(*old(self)) ==> app_inv(*final(self)),
            history_prev_step(*old(self), *final(self)),
    {
        let n = self.input_history.len();
        if n == 0 {
            return;
        }
        let idx = match self.history_index {
            None => {
                let mut taken: Vec<char> = Vec::new();
                std::mem::swap(&mut taken, &mut self.input);
                self.draft_before_history = taken;
                n - 1
            },
            Some(i) => {
                if i > 0 && i <= n {
                    i - 1
                } else {
                    return;
                }
            },
        };
        self.history_index = Some(idx);
        self.input = chars_of(self.input_history[idx].as_str());
        self.input_cursor = self.input.len();
    }

    /// Shows the next history entry, or the kept draft after the last.
    pub fn navigate_history_next(&mut self)
        ensures
            app_inv(*old(self)) ==> app_inv(*final(self)),
            history_next_step(*old(self), *final(self)),
    {
        match self.history_index {
            Some(i) => {
                let n = self.input_history.len();
                if i < usize::MAX && i + 1 < n {
                    self.history_index = Some(i + 1);
                    self.input = chars_of(self.input_history[i + 1].as_str());
                    self.input_cursor = self.input.len();
                } else {
                    self.history_index = None;
                    let mut taken: Vec<char> = Vec::new();
                    std::mem::swap(&mut taken, &mut self.draft_before_history);
                    self.input = taken;
                    self.input_cursor = self.input.len();
                }
            },
            None => {},
        }
    }


    /// Starts over: an empty transcript and input, no queue, no search, no
    /// session, and an agent to rebuild.
    pub fn reset_conversation(&mut self)
        ensures
            app_inv(*old(self)) ==> app_inv(*final(self)),
            reset(*old(self), *final(self)),
    {
        self.messages = Vec::new();
        self.input = Vec::new();
        self.input_cursor = 0;
        self.scroll_offset = 0;
        self.help_open = false;
        self.token_count = 0;
        self.queued_inputs = VecDeque::new();
        self.clear_search();
        self.suggestion_index = 0;
        self.agent_ready = false;
        self.previous_model = String::new();
        self.session = None;
        self.pending_user = None;
        self.status = AppStatus::Ready;
    }

    /// Expands or collapses the latest reasoning block, or, with none,
    /// switches transcript mode.
    pub fn toggle_recent_reasoning(&mut self)
        ensures
            app_inv(*old(self)) ==> app_inv(*final(self)),
            match last_reasoning(old(self).messages@) {
                Some(i) => *final(self) == (App { messages: final(self).messages, ..*old(self) })
                    && final(self).messages@ == old(self).messages@.update(
                    i,
                    ChatMessage {
                        reasoning_collapsed: !old(self).messages@[i].reasoning_collapsed,
                        ..old(self).messages@[i]
                    },
                ),
                None => *final(self) == (App {
                    transcript_mode: !old(self).transcript_mode,
                    ..*old(self)
                }),
            },
    {
        proof {
            lemma_last_answer(self.messages@);
        }
        let mut i = self.messages.len();
        assert(self.messages@.take(i as int) =~= self.messages@);
        while i > 0
            invariant
                i <= self.messages@.len(),
                self.messages == old(self).messages,
                *self == *old(self),
                last_reasoning(self.messages@) == last_reasoning(self.messages@.take(i as int)),
            decreases i,
        {
            let ghost t = self.messages@.take(i as int);
            assert(t.drop_last() =~= self.messages@.take(i - 1));
            assert(t.last() == self.messages@[i - 1]);
            let has = match &self.messages[i - 1].reasoning {
                Some(r) => !r.as_str().is_empty(),
                None => false,
            };
            if self.messages[i - 1].role == Role::Assistant && has {
                let mut m = self.messages.remove(i - 1);
                m.reasoning_collapsed = !m.reasoning_collapsed;
                self.messages.insert(i - 1, m);
                assert(self.messages@ =~= old(self).messages@.update(
                    i - 1,
                    ChatMessage {
                        reasoning_collapsed: !old(self).messages@[i - 1].reasoning_collapsed,
                        ..old(self).messages@[i - 1]
                    },
                ));
                return;
            }
            i -= 1;
        }
        assert(self.messages@.take(0) =~= Seq::<ChatMessage>::empty());
        self.transcript_mode = !self.transcript_mode;
    }

    /// Expands or collapses the last message when it is a tool call.
    pub fn toggle_tool_expand(&mut self)
        ensures
            app_inv(*old(self)) ==> app_inv(*final(self)),
            if old(self).messages@.len() > 0 && old(self).messages@.last().role == Role::Tool {
                *final(self) == (App { messages: final(self).messages, ..*old(self) })
                    && final(self).messages@ == old(self).messages@.update(
                    old(self).messages@.len() - 1,
                    ChatMessage {
                        collapsed: !old(self).messages@.last().collapsed,
                        ..old(self).messages@.last()
                    },
                )
            } else {
                *final(self) == *old(self)
            },
    {
        let n = self.messages.len();
        if n > 0 && self.messages[n - 1].role == Role::Tool {
            let mut m = self.messages.remove(n - 1);
            m.collapsed = !m.collapsed;
            self.messages.insert(n - 1, m);
            assert(self.messages@ =~= old(self).messages@.update(
                n - 1,
                ChatMessage {
                    collapsed: !old(self).messages@.last().collapsed,
                    ..old(self).messages@.last()
                },
            ));
        }
    }

    /// The last reply with text, to be copied; the transcript notes the
    /// copy.
    pub fn copy_last_assistant(&mut self) -> (r: Option<String>)
        ensures
            app_inv(*old(self)) ==> app_inv(*final(self)),
            match last_answer(old(self).messages@) {
                Some(i) => (r matches Some(t) && t@ == old(self).messages@[i].content@)
                    && with_notice(*old(self), *final(self), "Copied to clipboard"@),
                None => r is None && *final(self) == *old(self),
            },
    {
        proof {
            lemma_last_answer(self.messages@);
        }
        let mut i = self.messages.len();
        assert(self.messages@.take(i as int) =~= self.messages@);
        while i > 0
            invariant
                i <= self.messages@.len(),
                *self == *old(self),
                last_answer(self.messages@) == last_answer(self.messages@.take(i as int)),
            decreases i,
        {
            let ghost t = self.messages@.take(i as int);
            assert(t.drop_last() =~= self.messages@.take(i - 1));
            assert(t.last() == self.messages@[i - 1]);
            if self.messages[i - 1].role == Role::Assistant && !self.messages[i - 1].content.as_str().is_empty() {
                let text = self.messages[i - 1].content.clone();
                self.push_system_message("Copied to clipboard");
                return Some(text);
            }
            i -= 1;
        }
        assert(self.messages@.take(0) =~= Seq::<ChatMessage>::empty());
        None
    }

    fn pick_menu(&mut self) -> (r: KeyAction)
        requires
            old(self).menu is Some,
        ensures
            ({
                let m = old(self).menu->0;
                if m.index < m.options@.len() {
                    let sel = m.options@[m.index as int];
                    let a1 = App { menu: None, ..*old(self) };
                    match m.kind {
                        MenuKind::Model => r is Nothing && final(self).previous_model@.len() == 0
                            && final(self).current_provider@.len() == 0 && with_notice(
                            App {
                                current_model: sel,
                                previous_model: final(self).previous_model,
                                current_provider: final(self).current_provider,
                                agent_ready: false,
                                ..cancelled(a1)
                            },
                            *final(self),
                            "Model: "@ + sel@,
                        ),
                        MenuKind::Provider => r is Nothing && with_notice(
                            App {
                                provider_override: Some(sel),
                                current_provider: sel,
                                agent_ready: false,
                                ..cancelled(a1)
                            },
                            *final(self),
                            "Provider: "@ + sel@,
                        ),
                        MenuKind::Permissions => *final(self) == a1 && r == KeyAction::SwitchPermissions(sel),
                        MenuKind::Plugin => r is Nothing && final(self).input@ == "/plugin "@ + sel@ + " "@
                            && final(self).input_cursor == final(self).input@.len() && *final(self) == (App {
                            input: final(self).input,
                            input_cursor: final(self).input_cursor,
                            suggestion_index: 0,
                            ..a1
                        }),
                    }
                } else {
                    r is Nothing && *final(self) == *old(self)
                }
            }),
    {
        let (kind, selected) = match &self.menu {
            Some(m) => {
                if m.index < m.options.len() {
                    (m.kind, m.options[m.index].clone())
                } else {
                    return KeyAction::Nothing;
                }
            },
            None => {
                return KeyAction::Nothing;
            },
        };
        self.menu = None;
        match kind {
            MenuKind::Model => {
                self.cancel_active_turn();
                let mut t = chars_of("Model: ");
                extend_str(&mut t, selected.as_str());
                self.current_model = selected;
                self.previous_model = String::new();
                self.current_provider = String::new();
                self.agent_ready = false;
                let text = string_of(&t);
                self.push_system_message(text.as_str());
                KeyAction::Nothing
            },
            MenuKind::Provider => {
                self.cancel_active_turn();
                let mut t = chars_of("Provider: ");
                extend_str(&mut t, selected.as_str());
                self.provider_override = Some(selected.clone());
                self.current_provider = selected;
                self.agent_ready = false;
                let text = string_of(&t);
                self.push_system_message(text.as_str());
                KeyAction::Nothing
            },
            MenuKind::Permissions => KeyAction::SwitchPermissions(selected),
            MenuKind::Plugin => {
                let mut t = chars_of("/plugin ");
                extend_str(&mut t, selected.as_str());
                extend_str(&mut t, " ");
                self.input = t;
                self.input_cursor = self.input.len();
                self.suggestion_index = 0;
                KeyAction::Nothing
            },
        }
    }


    fn type_char(&mut self, c: char)
        requires
            old(self).input_cursor <= old(self).input@.len(),
        ensures
            typed(*old(self), *final(self), c),
    {
        self.help_open = false;
        self.exit_history_mode();
        self.input.insert(self.input_cursor, c);
        let _n = self.input.len();
        self.input_cursor = self.input_cursor + 1;
        self.clamp_suggestion_index();
    }

    fn clear_screen(&mut self)
        ensures
            final(self).messages@.len() == 0 && final(self).queued_inputs@.len() == 0
                && final(self).search.query@.len() == 0 && final(self).search.matches@.len() == 0
                && final(self).search.index is None && final(self).search.target_message is None
                && *final(self) == (App {
                messages: final(self).messages,
                queued_inputs: final(self).queued_inputs,
                search: final(self).search,
                help_open: false,
                ..cancelled(*old(self))
            }),
    {
        self.cancel_active_turn();
        self.messages = Vec::new();
        self.queued_inputs = VecDeque::new();
        self.clear_search();
        self.help_open = false;
    }

    fn start_find(&mut self)
        ensures
            final(self).input@ == "/find "@ && final(self).input_cursor == final(self).input@.len()
                && out_of_history(*old(self), *final(self)) && *final(self) == (App {
                input: final(self).input,
                input_cursor: final(self).input_cursor,
                history_index: None,
                draft_before_history: final(self).draft_before_history,
                help_open: false,
                ..*old(self)
            }),
    {
        self.input = chars_of("/find ");
        self.input_cursor = self.input.len();
        self.exit_history_mode();
        self.help_open = false;
    }

    fn escape(&mut self)
        ensures
            if old(self).history_index is Some {
                out_of_history(*old(self), *final(self)) && final(self).input@.len() == 0 && *final(self) == (App {
                    history_index: None,
                    draft_before_history: final(self).draft_before_history,
                    input: final(self).input,
                    input_cursor: 0,
                    ..*old(self)
                })
            } else if old(self).help_open {
                *final(self) == (App { help_open: false, ..*old(self) })
            } else if old(self).search.query@.len() > 0 && old(self).input@.len() == 0 {
                final(self).search.query@.len() == 0 && final(self).search.matches@.len() == 0
                    && final(self).search.index is None && final(self).search.target_message is None
                    && *final(self) == (App { search: final(self).search, ..*old(self) })
            } else if old(self).input@.len() > 0 {
                final(self).input@.len() == 0 && *final(self) == (App {
                    input: final(self).input,
                    input_cursor: 0,
                    suggestion_index: 0,
                    ..*old(self)
                })
            } else {
                *final(self) == *old(self)
            },
    {
        if self.history_index.is_some() {
            self.exit_history_mode();
            self.input = Vec::new();
            self.input_cursor = 0;
        } else if self.help_open {
            self.help_open = false;
        } else if self.search.is_active() && self.input.len() == 0 {
            self.clear_search();
        } else if self.input.len() > 0 {
            self.input = Vec::new();
            self.input_cursor = 0;
            self.suggestion_index = 0;
        }
    }

    fn menu_key(&mut self, key: KeyPress) -> (r: KeyAction)
        requires
            old(self).menu is Some,
            key.key == Key::Up || key.key == Key::Down || key.key == Key::Enter || key.key == Key::Esc
                || key.key == Key::Char(' '),
        ensures
            key_effect(*old(self), *final(self), key, r),
    {
        let k = key.key;
        if k == Key::Enter {
            return self.pick_menu();
        }
        match self.menu.take() {
            Some(m) => {
                let mut m = m;
                if k == Key::Up {
                    if m.index > 0 {
                        m.index = m.index - 1;
                    }
                    self.menu = Some(m);
                } else if k == Key::Down {
                    let n = m.options.len();
                    if n > 0 && m.index < n - 1 {
                        m.index = m.index + 1;
                    }
                    self.menu = Some(m);
                }
            },
            None => {},
        }
        KeyAction::Nothing
    }

    fn suggestion_key(&mut self, key: KeyPress, n: usize) -> (r: KeyAction)
        requires
            !(old(self).menu is Some && (key.key == Key::Up || key.key == Key::Down || key.key
                == Key::Enter || key.key == Key::Esc || key.key == Key::Char(' '))),
            n == suggestions_for(old(self).input@).len(),
            n > 0,
            key.key == Key::Tab || key.key == Key::Up || key.key == Key::Down,
        ensures
            key_effect(*old(self), *final(self), key, r),
    {
        let k = key.key;
        if k == Key::Tab {
            self.accept_selected_suggestion();
        } else if k == Key::Up {
            self.suggestion_index = self.suggestion_index.saturating_sub(1);
        } else if self.suggestion_index < n - 1 {
            self.suggestion_index = self.suggestion_index + 1;
        }
        KeyAction::Nothing
    }

    #[verifier::rlimit(40)]
    fn char_key(&mut self, key: KeyPress, c: char) -> (r: KeyAction)
        requires
            old(self).input_cursor <= old(self).input@.len(),
            old(self).search.index matches Some(i) ==> i < usize::MAX,
            key.key == Key::Char(c),
            !(old(self).menu is Some && c == ' '),
        ensures
            key_effect(*old(self), *final(self), key, r),
    {
        if key.ctrl && c == 'c' {
            self.should_quit = true;
        } else if key.ctrl && c == 'l' {
            self.clear_screen();
        } else if key.ctrl && c == 'n' {
            self.reset_conversation();
        } else if key.ctrl && c == 'o' {
            self.toggle_recent_reasoning();
        } else if key.ctrl && c == 'f' {
            self.start_find();
        } else if key.ctrl && c == 'g' {
            self.jump_search_next();
        } else if key.ctrl && c == 'e' {
            self.toggle_tool_expand();
        } else if key.ctrl && c == 'y' {
            match self.copy_last_assistant() {
                Some(t) => {
                    return KeyAction::Copy(t);
                },
                None => {},
            }
        } else if c == '?' && self.input.len() == 0 {
            self.help_open = !self.help_open;
        } else {
            self.type_char(c);
        }
        KeyAction::Nothing
    }

    #[verifier::rlimit(40)]
    fn cursor_key(&mut self, key: KeyPress) -> (r: KeyAction)
        requires
            old(self).input_cursor <= old(self).input@.len(),
            !(key.key is Char),
            !(old(self).menu is Some && (key.key == Key::Up || key.key == Key::Down || key.key
                == Key::Enter || key.key == Key::Esc)),
            !(suggestions_for(old(self).input@).len() > 0 && (key.key == Key::Tab || key.key
                == Key::Up || key.key == Key::Down)),
            key.key == Key::Backspace || key.key == Key::Delete || key.key == Key::Left || key.key
                == Key::Right || key.key == Key::Home || key.key == Key::End || key.key == Key::Enter,
        ensures
            key_effect(*old(self), *final(self), key, r),
    {
        match key.key {
            Key::Backspace => {
                if self.input_cursor > 0 {
                    self.input.remove(self.input_cursor - 1);
                    self.input_cursor = self.input_cursor - 1;
                    self.clamp_suggestion_index();
                }
            },
            Key::Delete => {
                if self.input_cursor < self.input.len() {
                    self.input.remove(self.input_cursor);
                    self.clamp_suggestion_index();
                }
            },
            Key::Left => {
                if self.input_cursor > 0 {
                    self.input_cursor = self.input_cursor - 1;
                }
            },
            Key::Right => {
                if self.input_cursor < self.input.len() {
                    self.input_cursor = self.input_cursor + 1;
                }
            },
            Key::Home => {
                self.input_cursor = 0;
            },
            Key::End => {
                if self.input.len() == 0 && self.scroll_offset > 0 {
                    self.scroll_offset = 0;
                } else {
                    self.input_cursor = self.input.len();
                }
            },
            _ => {
                if key.shift {
                    self.input.insert(self.input_cursor, '\n');
                    let _n = self.input.len();
                    self.input_cursor = self.input_cursor + 1;
                } else {
                    return KeyAction::Submit;
                }
            },
        }
        KeyAction::Nothing
    }

    #[verifier::rlimit(40)]
    fn scroll_key(&mut self, key: KeyPress) -> (r: KeyAction)
        requires
            old(self).input_cursor <= old(self).input@.len(),
            !(key.key is Char),
            !(old(self).menu is Some && (key.key == Key::Up || key.key == Key::Down || key.key
                == Key::Enter || key.key == Key::Esc)),
            !(suggestions_for(old(self).input@).len() > 0 && (key.key == Key::Tab || key.key
                == Key::Up || key.key == Key::Down)),
            !(key.key == Key::Backspace || key.key == Key::Delete || key.key == Key::Left
                || key.key == Key::Right || key.key == Key::Home || key.key == Key::End || key.key
                == Key::Enter),
        ensures
            key_effect(*old(self), *final(self), key, r),
    {
        match key.key {
            Key::Esc => {
                self.escape();
            },
            Key::Up => {
                if self.input.len() == 0 && self.input_history.len() > 0 {
                    self.navigate_history_prev();
                } else {
                    self.scroll_offset = self.scroll_offset.saturating_add(1);
                }
            },
            Key::Down => {
                if self.history_index.is_some() {
                    self.navigate_history_next();
                } else if self.scroll_offset > 0 {
                    self.scroll_offset = self.scroll_offset - 1;
                }
            },
            Key::PageUp => {
                self.scroll_offset = self.scroll_offset.saturating_add(8);
            },
            Key::PageDown => {
                self.scroll_offset = self.scroll_offset.saturating_sub(8);
            },
            _ => {},
        }
        KeyAction::Nothing
    }

    /// Handles a key press.
    pub fn handle_key(&mut self, key: KeyPress) -> (r: KeyAction)
        requires
            old(self).input_cursor <= old(self).input@.len(),
            old(self).search.index matches Some(i) ==> i < usize::MAX,
        ensures
            key_effect(*old(self), *final(self), key, r),
    {
        let k = key.key;
        let menu_key = k == Key::Up || k == Key::Down || k == Key::Enter || k == Key::Esc || k
            == Key::Char(' ');
        if self.menu.is_some() && menu_key {
            return self.menu_key(key);
        }
        let n = self.slash_suggestions().len();
        if n > 0 && (k == Key::Tab || k == Key::Up || k == Key::Down) {
            return self.suggestion_key(key, n);
        }
        match k {
            Key::Char(c) => self.char_key(key, c),
            Key::Backspace | Key::Delete | Key::Left | Key::Right | Key::Home | Key::End | Key::Enter => {
                self.cursor_key(key)
            },
            _ => self.scroll_key(key),
        }
    }

    fn status_text(&self) -> (r: String)
        ensures
            r@ == status_line(*self),
    {
        let mut v = chars_of("model=");
        extend_str(&mut v, self.current_model.as_str());
        extend_str(&mut v, " provider=");
        if self.current_provider.as_str().is_empty() {
            extend_str(&mut v, "unresolved");
        } else {
            extend_str(&mut v, self.current_provider.as_str());
        }
        extend_str(&mut v, " messages=");
        push_decimal(&mut v, self.messages.len() as u128);
        extend_str(&mut v, " tokens=");
        push_decimal(&mut v, self.token_count as u128);
        extend_str(&mut v, " transcript=");
        if self.transcript_mode {
            extend_str(&mut v, "on");
        } else {
            extend_str(&mut v, "off");
        }
        extend_str(&mut v, " sandbox=");
        extend_str(&mut v, self.sandbox_mode.as_str());
        extend_str(&mut v, " plugins=");
        push_decimal(&mut v, self.plugin_count as u128);
        string_of(&v)
    }

    fn search_status_text(&self) -> (r: String)
        ensures
            r@ == search_status(*self),
    {
        if !self.search.is_active() {
            return "Usage: /find <text>".to_owned();
        }
        let mut v = chars_of("Search: '");
        extend_str(&mut v, self.search.query.as_str());
        match self.search.index {
            Some(i) => {
                if self.search.matches.len() > 0 {
                    extend_str(&mut v, "' (");
                    push_decimal(&mut v, i as u128 + 1);
                    extend_str(&mut v, "/");
                    push_decimal(&mut v, self.search.matches.len() as u128);
                    extend_str(&mut v, "). Use /next, /prev, Esc to clear.");
                    return string_of(&v);
                }
            },
            None => {},
        }
        extend_str(&mut v, "' (no matches).");
        string_of(&v)
    }

    fn queue_text(&self) -> (r: String)
        ensures
            r@ == queue_listing(self.queued_inputs@),
    {
        let mut lines: Vec<Vec<char>> = Vec::new();
        for i in 0..self.queued_inputs.len()
            invariant
                lines@.len() == i,
                forall|j: int| 0 <= j < i ==> #[trigger] vv(lines@)[j] == queue_lines(self.queued_inputs@)[j],
        {
            let mut l = chars_of("  ");
            push_decimal(&mut l, i as u128 + 1);
            extend_str(&mut l, ". ");
            let sm = summarize_prompt(self.queued_inputs[i].as_str(), 80);
            extend_str(&mut l, sm.as_str());
            let ghost before = vv(lines@);
            lines.push(l);
            proof {
                assert forall|j: int| 0 <= j < i + 1 implies #[trigger] vv(lines@)[j] == queue_lines(self.queued_inputs@)[j] by {
                    if j < i {
                        assert(vv(lines@)[j] == before[j]);
                    }
                }
            }
        }
        assert(vv(lines@) =~= queue_lines(self.queued_inputs@));
        let mut v: Vec<char> = Vec::new();
        push_decimal(&mut v, self.queued_inputs.len() as u128);
        extend_str(&mut v, " queued prompt(s) · /queue clear to drop:\n");
        let sep = chars_of("\n");
        let body = join_chars(&lines, &sep);
        extend_chars(&mut v, &body);
        string_of(&v)
    }

    /// Opens the model menu on the listed models, at the current model.
    pub fn show_models(&mut self, models: Vec<String>)
        ensures
            app_inv(*old(self)) ==> app_inv(*final(self)),
            final(self).menu is Some,
            final(self).menu->0.kind == MenuKind::Model,
            final(self).menu->0.options == models,
            match position_of_text(models@, old(self).current_model@) {
                Some(k) => final(self).menu->0.index == k,
                None => final(self).menu->0.index == 0,
            },
            *final(self) == (App { menu: final(self).menu, ..*old(self) }),
    {
        let idx = match find_text(&models, self.current_model.as_str()) {
            Some(k) => k,
            None => 0,
        };
        self.menu = Some(MenuState { kind: MenuKind::Model, options: models, index: idx });
    }

    /// Opens the provider menu on the listed providers, at the current one
    /// (`auto` when none is set); with none listed, names the current one.
    pub fn show_providers(&mut self, providers: Vec<String>)
        ensures
            app_inv(*old(self)) ==> app_inv(*final(self)),
            ({
                let current = if old(self).current_provider@.len() == 0 {
                    "auto"@
                } else {
                    old(self).current_provider@
                };
                if providers@.len() == 0 {
                    with_notice(*old(self), *final(self), "Current provider: "@ + current)
                } else {
                    &&& final(self).menu is Some
                    &&& final(self).menu->0.kind == MenuKind::Provider
                    &&& final(self).menu->0.options == providers
                    &&& final(self).menu->0.index == (match position_of_text(providers@, current) {
                        Some(k) => k,
                        None => 0,
                    })
                    &&& *final(self) == (App { menu: final(self).menu, ..*old(self) })
                }
            }),
    {
        let current = if self.current_provider.as_str().is_empty() {
            "auto".to_owned()
        } else {
            self.current_provider.clone()
        };
        if providers.len() == 0 {
            let mut v = chars_of("Current provider: ");
            extend_str(&mut v, current.as_str());
            let t = string_of(&v);
            self.push_system_message(t.as_str());
        } else {
            let idx = match find_text(&providers, current.as_str()) {
                Some(k) => k,
                None => 0,
            };
            self.menu = Some(MenuState { kind: MenuKind::Provider, options: providers, index: idx });
        }
    }

    /// Records a sandbox mode switch that succeeded: the turn is dropped and
    /// the agent is rebuilt for the next turn.
    pub fn permissions_switched(&mut self, mode_label: String)
        ensures
            app_inv(*old(self)) ==> app_inv(*final(self)),
            final(self).sandbox_mode == mode_label,
            final(self).previous_model@.len() == 0,
            with_notice(
                App {
                    sandbox_mode: mode_label,
                    previous_model: final(self).previous_model,
                    agent_ready: false,
                    ..cancelled(*old(self))
                },
                *final(self),
                "Permissions switched to '"@ + mode_label@ + "'. Agent will rebuild next turn."@,
            ),
    {
        self.cancel_active_turn();
        let mut v = chars_of("Permissions switched to '");
        extend_str(&mut v, mode_label.as_str());
        extend_str(&mut v, "'. Agent will rebuild next turn.");
        self.sandbox_mode = mode_label;
        self.agent_ready = false;
        self.previous_model = String::new();
        let t = string_of(&v);
        self.push_system_message(t.as_str());
    }

    /// Reports the transcript's token estimate for `/tokens`.
    pub fn report_tokens(&mut self, content_tokens: u64, reasoning_tokens: u64)
        ensures
            app_inv(*old(self)) ==> app_inv(*final(self)),
            with_notice(
                *old(self),
                *final(self),
                "tokens: "@ + decimal(content_tokens as nat) + " content + "@ + decimal(
                    reasoning_tokens as nat,
                ) + " reasoning = "@ + decimal((content_tokens + reasoning_tokens) as nat)
                    + " total ("@ + decimal(old(self).messages@.len()) + " messages)"@,
            ),
    {
        let mut v = chars_of("tokens: ");
        push_decimal(&mut v, content_tokens as u128);
        extend_str(&mut v, " content + ");
        push_decimal(&mut v, reasoning_tokens as u128);
        extend_str(&mut v, " reasoning = ");
        push_decimal(&mut v, content_tokens as u128 + reasoning_tokens as u128);
        extend_str(&mut v, " total (");
        push_decimal(&mut v, self.messages.len() as u128);
        extend_str(&mut v, " messages)");
        let t = string_of(&v);
        self.push_system_message(t.as_str());
    }


    /// Handles a line that starts with `/`; returns `NotCommand` for any
    /// other text.
    #[verifier::rlimit(60)]
    pub fn handle_slash_command(&mut self, text: &str) -> (r: SlashOutcome)
        requires
            old(self).search.index matches Some(i) ==> i < usize::MAX,
        ensures
            app_inv(*old(self)) ==> app_inv(*final(self)),
            slash_effect(*old(self), *final(self), text@, r),
    {
        let c = chars_of(text);
        if c.len() == 0 || c[0] != '/' {
            return SlashOutcome::NotCommand;
        }
        let w = split_whitespace(&c);
        let cmd = word_or_empty(&w, 0);
        let arg1 = word_or_empty(&w, 1);
        let rest = words_after(&w, 1);
        if eq_str(&cmd, "/help") {
            self.help_open = true;
            SlashOutcome::Handled
        } else if eq_str(&cmd, "/clear") {
            self.cancel_active_turn();
            self.messages = Vec::new();
            self.help_open = false;
            SlashOutcome::Handled
        } else if eq_str(&cmd, "/new") {
            self.reset_conversation();
            let ghost mid = *self;
            self.push_system_message("Started a fresh agent context.");
            assert(reset(*old(self), mid) && with_notice(mid, *self, "Started a fresh agent context."@));
            SlashOutcome::Handled
        } else if eq_str(&cmd, "/model") {
            if rest.len() == 0 {
                SlashOutcome::ChooseModel
            } else {
                self.cancel_active_turn();
                let mut t = chars_of("Model switched to ");
                extend_chars(&mut t, &rest);
                extend_str(&mut t, ".");
                self.current_model = string_of(&rest);
                self.previous_model = String::new();
                self.current_provider = String::new();
                self.status = AppStatus::Ready;
                self.agent_ready = false;
                let m = string_of(&t);
                self.push_system_message(m.as_str());
                SlashOutcome::Handled
            }
        } else if eq_str(&cmd, "/status") {
            let t = self.status_text();
            self.push_system_message(t.as_str());
            SlashOutcome::Handled
        } else if eq_str(&cmd, "/permissions") || eq_str(&cmd, "/permission") {
            if arg1.len() == 0 {
                let idx = mode_position(self.sandbox_mode.as_str());
                self.menu = Some(MenuState { kind: MenuKind::Permissions, options: permission_modes(), index: idx });
                SlashOutcome::Handled
            } else {
                let normalized = to_lower(&trim_chars(&arg1));
                if eq_str(&normalized, "project") || eq_str(&normalized, "strict") || eq_str(&normalized, "permissive")
                    || eq_str(&normalized, "off") {
                    SlashOutcome::SwitchPermissions(string_of(&normalized))
                } else {
                    self.push_system_message("Usage: /permissions <project|strict|permissive|off>");
                    SlashOutcome::Handled
                }
            }
        } else if eq_str(&cmd, "/plugins") {
            SlashOutcome::ListPlugins
        } else if eq_str(&cmd, "/plugin") {
            let prompt = words_after(&w, 2);
            SlashOutcome::RunPlugin { name: string_of(&arg1), prompt: string_of(&prompt) }
        } else if eq_str(&cmd, "/provider") {
            if rest.len() == 0 {
                SlashOutcome::ChooseProvider
            } else {
                self.cancel_active_turn();
                let p = string_of(&rest);
                self.provider_override = Some(p.clone());
                self.current_provider = p;
                self.agent_ready = false;
                self.push_system_message("Provider override set. Agent will rebuild next turn.");
                SlashOutcome::Handled
            }
        } else if eq_str(&cmd, "/tokens") {
            SlashOutcome::CountTokens
        } else {
            self.slash_more(&w, cmd, arg1, rest)
        }
    }

    #[verifier::rlimit(60)]
    fn slash_more(&mut self, w: &Vec<Vec<char>>, cmd: Vec<char>, arg1: Vec<char>, rest: Vec<char>) -> (r: SlashOutcome)
        requires
            old(self).search.index matches Some(i) ==> i < usize::MAX,
            cmd@ == word_at(vv(w@), 0),
            arg1@ == word_at(vv(w@), 1),
            rest@ == words_from(vv(w@), 1),
            !(cmd@ == "/help"@ || cmd@ == "/clear"@ || cmd@ == "/new"@ || cmd@ == "/model"@ || cmd@
                == "/status"@ || cmd@ == "/permissions"@ || cmd@ == "/permission"@ || cmd@
                == "/plugins"@ || cmd@ == "/plugin"@ || cmd@ == "/provider"@ || cmd@ == "/tokens"@),
        ensures
            slash_more_effect(*old(self), *final(self), vv(w@), r),
    {
        if eq_str(&cmd, "/find") || eq_str(&cmd, "/search") {
            if rest.len() == 0 {
                let t = self.search_status_text();
                self.push_system_message(t.as_str());
            } else {
                self.start_search(string_of(&rest));
            }
            SlashOutcome::Handled
        } else if eq_str(&cmd, "/next") {
            self.jump_search_next();
            SlashOutcome::Handled
        } else if eq_str(&cmd, "/prev") || eq_str(&cmd, "/previous") {
            self.jump_search_prev();
            SlashOutcome::Handled
        } else if eq_str(&cmd, "/trace") {
            self.transcript_mode = !self.transcript_mode;
            if self.transcript_mode {
                self.push_system_message("Trace on. Reasoning will be shown inline.");
            } else {
                self.push_system_message("Trace off. Reasoning hidden by default · Ctrl+O expands the latest block.");
            }
            SlashOutcome::Handled
        } else if eq_str(&cmd, "/effort") {
            if eq_str(&arg1, "off") || eq_str(&arg1, "none") {
                self.cancel_active_turn();
                self.thinking_effort = None;
                self.agent_ready = false;
                self.push_system_message("Thinking effort: auto (model default). Agent will rebuild.");
            } else if eq_str(&arg1, "low") || eq_str(&arg1, "medium") || eq_str(&arg1, "high") || eq_str(&arg1, "xhigh")
                || eq_str(&arg1, "max") {
                self.cancel_active_turn();
                self.thinking_effort = Some(string_of(&arg1));
                self.agent_ready = false;
                let mut t = chars_of("Thinking effort: ");
                extend_chars(&mut t, &arg1);
                extend_str(&mut t, ". Agent will rebuild next turn.");
                let m = string_of(&t);
                self.push_system_message(m.as_str());
            } else if arg1.len() == 0 {
                let mut t = chars_of("Thinking effort: ");
                match &self.thinking_effort {
                    Some(e) => extend_str(&mut t, e.as_str()),
                    None => extend_str(&mut t, "auto"),
                }
                extend_str(&mut t, ". Use /effort <off|low|medium|high|xhigh|max>.");
                let m = string_of(&t);
                self.push_system_message(m.as_str());
            } else {
                self.push_system_message("Usage: /effort <off|low|medium|high|xhigh|max>");
            }
            SlashOutcome::Handled
        } else {
            self.slash_tail(w, cmd, arg1)
        }
    }


    #[verifier::rlimit(60)]
    fn slash_tail(&mut self, w: &Vec<Vec<char>>, cmd: Vec<char>, arg1: Vec<char>) -> (r: SlashOutcome)
        requires
            cmd@ == word_at(vv(w@), 0),
            arg1@ == word_at(vv(w@), 1),
        ensures
            slash_tail_effect(*old(self), *final(self), vv(w@), r),
    {
        if eq_str(&cmd, "/expand") {
            self.toggle_tool_expand();
            SlashOutcome::Handled
        } else if eq_str(&cmd, "/copy") {
            match self.copy_last_assistant() {
                Some(t) => SlashOutcome::Copy(t),
                None => SlashOutcome::Handled,
            }
        } else if eq_str(&cmd, "/save") {
            if self.session.is_some() {
                SlashOutcome::SaveSession
            } else {
                self.push_system_message("No session to save yet. Send a message first.");
                SlashOutcome::Handled
            }
        } else if eq_str(&cmd, "/queue") {
            if eq_str(&arg1, "clear") {
                let count = self.queued_inputs.len();
                self.queued_inputs = VecDeque::new();
                let mut t = chars_of("Cleared ");
                push_decimal(&mut t, count as u128);
                extend_str(&mut t, " queued prompt(s).");
                let m = string_of(&t);
                self.push_system_message(m.as_str());
            } else if self.queued_inputs.len() == 0 {
                self.push_system_message("Queue is empty.");
            } else {
                let t = self.queue_text();
                self.push_system_message(t.as_str());
            }
            SlashOutcome::Handled
        } else if eq_str(&cmd, "/sessions") {
            let sub = if arg1.len() == 0 {
                "list".to_owned()
            } else {
                string_of(&arg1)
            };
            let id = word_or_empty(w, 2);
            SlashOutcome::Sessions { sub, id: string_of(&id) }
        } else if eq_str(&cmd, "/quit") || eq_str(&cmd, "/exit") {
            self.should_quit = true;
            SlashOutcome::Handled
        } else {
            let mut t = chars_of("Unknown command: ");
            extend_chars(&mut t, &cmd);
            extend_str(&mut t, ". Type /help for shortcuts.");
            let m = string_of(&t);
            self.push_system_message(m.as_str());
            SlashOutcome::Handled
        }
    }


    /// Submits the input (Enter).
    pub fn submit(&mut self) -> (r: SubmitStep)
        requires
            old(self).search.index matches Some(i) ==> i < usize::MAX,
        ensures
            submit_effect(*old(self), *final(self), r),
    {
        let t = trim_chars(&self.input);
        if t.len() == 0 {
            return SubmitStep::Nothing;
        }
        let text = string_of(&t);
        self.add_to_history(text.clone());
        let ghost h = *self;
        proof {
            assert(h.input_history@.take(old(self).input_history@.len() as int) =~= old(self).input_history@);
        }
        assert(add_history_effect(*old(self), h, t@));
        if t[0] == '/' {
            let o = self.handle_slash_command(text.as_str());
            let ghost mid = *self;
            let is_plugin = matches!(o, SlashOutcome::RunPlugin { .. });
            if !is_plugin {
                self.input = Vec::new();
                self.input_cursor = 0;
                self.scroll_offset = 0;
                self.suggestion_index = 0;
            }
            assert(slash_effect(h, mid, t@, o));
            return SubmitStep::Slash(o);
        }
        if self.active_turn_id.is_some() || matches!(self.status, AppStatus::Streaming) {
            self.queue_input(text);
            let ghost mid = *self;
            assert(mid.queued_inputs@.take(h.queued_inputs@.len() as int) =~= h.queued_inputs@);
            assert(queued_step(h, mid, t@));
            self.input = Vec::new();
            self.input_cursor = 0;
            self.suggestion_index = 0;
            return SubmitStep::Queued;
        }
        if t[0] == '!' {
            let cmd = crate::text::slice_chars(&t, 1, t.len());
            assert(cmd@ =~= t@.drop_first());
            self.messages.push(ChatMessage::new(Role::User, text));
            assert(self.messages@.take(h.messages@.len() as int) =~= h.messages@);
            self.input = Vec::new();
            self.input_cursor = 0;
            self.suggestion_index = 0;
            self.scroll_offset = 0;
            self.status = AppStatus::Streaming;
            self.stream_started = true;
            return SubmitStep::Bash(string_of(&cmd));
        }
        SubmitStep::ModelTurn(text)
    }

    /// Starts a model turn: the prompt (`display`) joins the transcript, an
    /// empty reply follows it, and the UI streams. `display_tokens` is the
    /// prompt's token estimate. Returns the turn's id.
    pub fn begin_model_turn(&mut self, display: String, display_tokens: usize) -> (r: u64)
        ensures
            app_inv(*old(self)) ==> app_inv(*final(self)),
            r == old(self).next_turn_id,
            final(self).messages@.len() == old(self).messages@.len() + 2,
            final(self).messages@.take(old(self).messages@.len() as int) == old(self).messages@,
            final(self).messages@[old(self).messages@.len() as int].role == Role::User,
            final(self).messages@[old(self).messages@.len() as int].content@ == display@,
            final(self).messages@.last().role == Role::Assistant,
            final(self).messages@.last().content@.len() == 0,
            final(self).token_count == sat_add(old(self).token_count as nat, display_tokens as nat),
            final(self).input@.len() == 0,
            final(self).input_cursor == 0,
            final(self).scroll_offset == 0,
            final(self).status is Streaming,
            final(self).active_turn_id == Some(r),
            final(self).active_assistant_index == Some((old(self).messages@.len() + 1) as usize),
            final(self).pending_user is Some && final(self).pending_user->0@ == display@,
    {
        let user = display.clone();
        self.messages.push(ChatMessage::new(Role::User, display));
        self.token_count = self.token_count.saturating_add(display_tokens);
        self.input = Vec::new();
        self.input_cursor = 0;
        self.suggestion_index = 0;
        self.scroll_offset = 0;
        self.status = AppStatus::Streaming;
        self.stream_started = true;
        self.reasoning_started = false;
        self.reasoning_timed = false;
        let turn = self.begin_turn(user);
        self.messages.push(ChatMessage::new(Role::Assistant, String::new()));
        assert(self.messages@.take(old(self).messages@.len() as int) =~= old(self).messages@);
        turn
    }

    /// Shows the output of a `!` shell command (or its failure) as a tool
    /// message, collapsed beyond six lines, and makes the UI ready.
    pub fn bash_finished(&mut self, output: Result<String, String>)
        ensures
            app_inv(*old(self)) ==> app_inv(*final(self)),
            ({
                let text = match output {
                    Ok(o) => if trim(o@).len() == 0 {
                        "(no output)"@
                    } else {
                        trim(o@)
                    },
                    Err(e) => "bash: "@ + e@,
                };
                let m = final(self).messages@.last();
                &&& final(self).messages@.len() == old(self).messages@.len() + 1
                &&& final(self).messages@.take(old(self).messages@.len() as int) == old(self).messages@
                &&& m.role == Role::Tool
                &&& m.content@ == text
                &&& m.collapsed == (crate::chat::line_count(text) > 6)
                &&& m.tool is None
                &&& m.reasoning is None
                &&& final(self).status is Ready
                &&& !final(self).stream_started
            }),
    {
        let text = match output {
            Ok(o) => {
                let t = trim_chars(&chars_of(o.as_str()));
                if t.len() == 0 {
                    "(no output)".to_owned()
                } else {
                    string_of(&t)
                }
            },
            Err(e) => {
                let mut v = chars_of("bash: ");
                extend_str(&mut v, e.as_str());
                string_of(&v)
            },
        };
        let collapsed = crate::chat::count_lines(text.as_str()) > 6;
        let mut msg = ChatMessage::new(Role::Tool, text);
        msg.collapsed = collapsed;
        self.messages.push(msg);
        assert(self.messages@.take(old(self).messages@.len() as int) =~= old(self).messages@);
        self.status = AppStatus::Ready;
        self.stream_started = false;
    }

    /// Shows a saved session: its messages become the transcript, and the
    /// conversation continues it with its provider.
    pub fn load_session(&mut self, session: Session)
        ensures
            app_inv(*old(self)) ==> app_inv(*final(self)),
            final(self).messages@.len() == session.messages@.len(),
            forall|i: int|
                0 <= i < session.messages@.len() ==> #[trigger] final(self).messages@[i].role
                    == crate::agent::role_named(session.messages@[i].role@)
                    && final(self).messages@[i].content@ == session.messages@[i].content@
                    && final(self).messages@[i].reasoning is None && final(self).messages@[i].tool
                    is None && !final(self).messages@[i].collapsed
                    && final(self).messages@[i].reasoning_collapsed,
            final(self).current_provider@ == session.provider@,
            final(self).current_model == old(self).current_model,
            final(self).session == Some(session),
            !final(self).agent_ready,
            final(self).previous_model@.len() == 0,
            final(self).scroll_offset == 0,
            final(self).queued_inputs@.len() == 0,
            final(self).search.query@.len() == 0,
            final(self).active_turn_id is None,
            final(self).active_assistant_index is None,
            final(self).pending_user is None,
            !final(self).stream_started,
            old(self).status is Streaming ==> final(self).status is Ready,
            !(old(self).status is Streaming) ==> final(self).status == old(self).status,
            final(self).token_count == old(self).token_count,
    {
        self.cancel_active_turn();
        let mut msgs: Vec<ChatMessage> = Vec::new();
        for i in 0..session.messages.len()
            invariant
                msgs@.len() == i,
                forall|j: int|
                    0 <= j < i ==> #[trigger] msgs@[j].role == crate::agent::role_named(
                        session.messages@[j].role@,
                    ) && msgs@[j].content@ == session.messages@[j].content@ && msgs@[j].reasoning
                        is None && msgs@[j].tool is None && !msgs@[j].collapsed && msgs@[j].reasoning_collapsed,
        {
            let m = &session.messages[i];
            msgs.push(ChatMessage::new(crate::agent::role_from_session(m.role.as_str()), m.content.clone()));
        }
        self.messages = msgs;
        self.current_provider = session.provider.clone();
        self.session = Some(session);
        self.agent_ready = false;
        self.previous_model = String::new();
        self.scroll_offset = 0;
        self.queued_inputs = VecDeque::new();
        self.clear_search();
    }

    /// Advances the spinner.
    pub fn tick(&mut self)
        ensures
            app_inv(*old(self)) ==> app_inv(*final(self)),
            *final(self) == (App {
                spinner_index: if old(self).spinner_index == usize::MAX {
                    0
                } else {
                    (old(self).spinner_index + 1) as usize
                },
                ..*old(self)
            }),
    {
        self.spinner_index = self.spinner_index.wrapping_add(1);
    }

    /// The composer's mode: `bash` for input starting with `!`.
    pub fn mode_label(&self) -> (r: &'static str)
        ensures
            r@ == (if self.input@.len() > 0 && self.input@[0] == '!' {
                "bash"@
            } else {
                "prompt"@
            }),
    {
        if self.input.len() > 0 && self.input[0] == '!' {
            "bash"
        } else {
            "prompt"
        }
    }

    /// The spinner's current frame.
    pub fn spinner(&self) -> (r: &'static str)
        ensures
            r@ == (if self.spinner_index % 4 == 0 {
                "-"@
            } else if self.spinner_index % 4 == 1 {
                "\\"@
            } else if self.spinner_index % 4 == 2 {
                "|"@
            } else {
                "/"@
            }),
    {
        let k = self.spinner_index % 4;
        if k == 0 {
            "-"
        } else if k == 1 {
            "\\"
        } else if k == 2 {
            "|"
        } else {
            "/"
        }
    }


    /// Whether the next model turn needs a new agent: none is built yet, or
    /// the model changed since it was built.
    pub fn needs_agent(&self) -> (r: bool)
        ensures
            r == (!self.agent_ready || self.current_model@ != self.previous_model@),
    {
        if !self.agent_ready {
            return true;
        }
        let a = chars_of(self.current_model.as_str());
        let b = chars_of(self.previous_model.as_str());
        !crate::text::eq_chars(&a, &b)
    }

    /// Records the agent built for the next turn: the model and provider the
    /// name resolved to, and its context window (128000 where the model
    /// reports none).
    pub fn agent_built(&mut self, model: String, provider: String, context_length: u32)
        ensures
            app_inv(*old(self)) ==> app_inv(*final(self)),
            final(self).current_model == model,
            final(self).previous_model == model,
            final(self).current_provider == provider,
            final(self).context_limit == if context_length > 0 {
                context_length
            } else {
                128000
            },
            final(self).agent_ready,
            *final(self) == (App {
                current_model: final(self).current_model,
                previous_model: final(self).previous_model,
                current_provider: final(self).current_provider,
                context_limit: final(self).context_limit,
                agent_ready: true,
                ..*old(self)
            }),
    {
        self.context_limit = if context_length > 0 {
            context_length
        } else {
            128000
        };
        self.previous_model = model.clone();
        self.current_model = model;
        self.current_provider = provider;
        self.agent_ready = true;
    }

    /// A `/plugin` request. Without a name, the loaded plugins are offered in
    /// a menu (a notice says when none is loaded). With a name but no prompt,
    /// the input is filled with the command for the prompt to follow (a notice
    /// says when no such plugin is loaded). With both, the loaded plugin the
    /// name picks is returned, for its prompt to be rendered, or a notice says
    /// it is not loaded.
    pub fn plugin_request(&mut self, names: Vec<String>, name: &str, prompt: &str) -> (r: Option<String>)
        ensures
            app_inv(*old(self)) ==> app_inv(*final(self)),
            name@.len() == 0 && names@.len() == 0 ==> r is None && with_notice(
                *old(self),
                *final(self),
                "No plugins loaded."@,
            ),
            name@.len() == 0 && names@.len() > 0 ==> r is None && *final(self) == (App {
                menu: Some(MenuState { kind: MenuKind::Plugin, options: names, index: 0 }),
                ..*old(self)
            }),
            name@.len() > 0 && trim(prompt@).len() == 0 ==> r is None && if plugin_named(names@, name@) {
                &&& final(self).input@ == "/plugin "@ + name@ + " "@
                &&& final(self).input_cursor == final(self).input@.len()
                &&& *final(self) == (App {
                    input: final(self).input,
                    input_cursor: final(self).input_cursor,
                    suggestion_index: 0,
                    ..*old(self)
                })
            } else {
                with_notice(
                    *old(self),
                    *final(self),
                    "Plugin not found: "@ + name@ + ". Use /plugins to list loaded plugins."@,
                )
            },
            name@.len() > 0 && trim(prompt@).len() > 0 ==> match r {
                Some(c) => *final(self) == *old(self) && picked_plugin(names@, name@, c@),
                None => !plugin_named(names@, name@) && with_notice(
                    *old(self),
                    *final(self),
                    "Plugin failed: plugin '"@ + name@ + "' is not loaded"@,
                ),
            },
    {
        if name.is_empty() {
            if names.len() == 0 {
                self.push_system_message("No plugins loaded.");
            } else {
                self.menu = Some(MenuState { kind: MenuKind::Plugin, options: names, index: 0 });
            }
            return None;
        }
        let found = find_plugin_name(&names, name);
        proof {
            match &found {
                Some(c) => {
                    let i = choose|i: int|
                        0 <= i < names@.len() && c@ == names@[i]@ && (names@[i]@ == trim(name@) || lower(names@[i]@)
                            == lower(trim(name@))) && forall|j: int|
                            0 <= j < i ==> !(names@[j]@ == trim(name@) || lower(names@[j]@) == lower(trim(name@)));
                    assert(names_match(names@[i]@, name@));
                    assert(picked_plugin(names@, name@, c@));
                    assert(plugin_named(names@, name@));
                },
                None => {
                    assert(!plugin_named(names@, name@));
                },
            }
        }
        let p = chars_of(prompt);
        let tp = trim_chars(&p);
        if tp.len() == 0 {
            match found {
                Some(_) => {
                    let mut t = chars_of("/plugin ");
                    extend_str(&mut t, name);
                    extend_str(&mut t, " ");
                    self.input = t;
                    self.input_cursor = self.input.len();
                    self.suggestion_index = 0;
                },
                None => {
                    let mut t = chars_of("Plugin not found: ");
                    extend_str(&mut t, name);
                    extend_str(&mut t, ". Use /plugins to list loaded plugins.");
                    let m = string_of(&t);
                    self.push_system_message(m.as_str());
                },
            }
            return None;
        }
        match found {
            Some(c) => Some(c),
            None => {
                let mut t = chars_of("Plugin failed: plugin '");
                extend_str(&mut t, name);
                extend_str(&mut t, "' is not loaded");
                let m = string_of(&t);
                self.push_system_message(m.as_str());
                None
            },
        }
    }

    /// Submits a plugin run whose prompt is rendered: while a reply runs it
    /// is queued as `/plugin <plugin> <prompt>` and the input cleared;
    /// otherwise the transcript text of the run, `@<plugin> <prompt>`, is
    /// returned for the model turn to start with.
    pub fn submit_plugin(&mut self, plugin: &str, raw_prompt: &str) -> (r: Option<String>)
        ensures
            app_inv(*old(self)) ==> app_inv(*final(self)),
            busy(*old(self)) ==> r is None && exists|mid: App|
                #[trigger] queued_step(*old(self), mid, "/plugin "@ + plugin@ + " "@ + raw_prompt@)
                    && cleared_input(mid, *final(self)),
            !busy(*old(self)) ==> (r matches Some(d) && d@ == "@"@ + plugin@ + " "@ + raw_prompt@)
                && *final(self) == *old(self),
    {
        if self.active_turn_id.is_some() || matches!(self.status, AppStatus::Streaming) {
            let mut t = chars_of("/plugin ");
            extend_str(&mut t, plugin);
            extend_str(&mut t, " ");
            extend_str(&mut t, raw_prompt);
            self.queue_input(string_of(&t));
            let ghost mid = *self;
            assert(mid.queued_inputs@.take(old(self).queued_inputs@.len() as int) =~= old(self).queued_inputs@);
            assert(queued_step(*old(self), mid, "/plugin "@ + plugin@ + " "@ + raw_prompt@));
            self.input = Vec::new();
            self.input_cursor = 0;
            self.suggestion_index = 0;
            return None;
        }
        let mut d = chars_of("@");
        extend_str(&mut d, plugin);
        extend_str(&mut d, " ");
        extend_str(&mut d, raw_prompt);
        Some(string_of(&d))
    }

    /// Runs the oldest queued prompt once the UI is ready.
    pub fn submit_next_queued(&mut self) -> (r: SubmitStep)
        requires
            old(self).search.index matches Some(i) ==> i < usize::MAX,
        ensures
            app_inv(*old(self)) ==> app_inv(*final(self)),
            !(old(self).status is Ready) || old(self).active_turn_id is Some
                || old(self).queued_inputs@.len() == 0 ==> r is Nothing && *final(self) == *old(self),
            old(self).status is Ready && old(self).active_turn_id is None
                && old(self).queued_inputs@.len() > 0 ==> exists|mid: App|
                #[trigger] submit_effect(mid, *final(self), r) && mid.queued_inputs@
                    == old(self).queued_inputs@.drop_first() && mid.input@
                    == old(self).queued_inputs@[0]@ && mid.input_cursor == mid.input@.len()
                    && mid == (App {
                    queued_inputs: mid.queued_inputs,
                    input: mid.input,
                    input_cursor: mid.input_cursor,
                    ..*old(self)
                }),
    {
        if !matches!(self.status, AppStatus::Ready) || self.active_turn_id.is_some() || self.queued_inputs.len() == 0 {
            return SubmitStep::Nothing;
        }
        let next = match self.queued_inputs.pop_front() {
            Some(n) => n,
            None => {
                return SubmitStep::Nothing;
            },
        };
        self.input = chars_of(next.as_str());
        self.input_cursor = self.input.len();
        let ghost mid = *self;
        assert(mid.queued_inputs@ =~= old(self).queued_inputs@.drop_first());
        let r = self.submit();
        assert(submit_effect(mid, *self, r));
        r
    }

}

} // verus!
