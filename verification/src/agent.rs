//! What this client exchanges with the agent loop: the roles and messages it
//! seeds a conversation with, and how a rendered prompt is merged into the
//! history of a resumed thread.

use crate::session::{opt_view, Session, SessionMessage, SessionToolCall};
use crate::text::{chars_of, eq_str, lower, to_lower};
use vstd::prelude::*;

verus! {

/// Who speaks a message.
#[derive(Clone, Copy, Debug, PartialEq, Eq, Structural)]
pub enum Role {
    System,
    User,
    Assistant,
    Tool,
}

/// The role a stored role name stands for, compared without ASCII case;
/// any name that is not `assistant`, `system` or `tool` is a user.
pub open spec fn role_named(name: Seq<char>) -> Role {
    let l = lower(name);
    if l == "assistant"@ {
        Role::Assistant
    } else if l == "system"@ {
        Role::System
    } else if l == "tool"@ {
        Role::Tool
    } else {
        Role::User
    }
}

pub fn role_from_session(role: &str) -> (r: Role)
    ensures
        r == role_named(role@),
{
    let c = chars_of(role);
    let l = to_lower(&c);
    if eq_str(&l, "assistant") {
        Role::Assistant
    } else if eq_str(&l, "system") {
        Role::System
    } else if eq_str(&l, "tool") {
        Role::Tool
    } else {
        Role::User
    }
}

/// A tool invocation requested by the model.
#[derive(Debug)]
pub struct ToolCall {
    pub id: String,
    pub name: String,
    pub arguments: String,
}

pub type CallView = (Seq<char>, Seq<char>, Seq<char>);

pub open spec fn call_view(c: ToolCall) -> CallView {
    (c.id@, c.name@, c.arguments@)
}

pub open spec fn calls_view(v: Seq<ToolCall>) -> Seq<CallView> {
    Seq::new(v.len(), |i: int| call_view(v[i]))
}

pub open spec fn stored_calls_view(v: Seq<SessionToolCall>) -> Seq<CallView> {
    Seq::new(v.len(), |i: int| (v[i].id@, v[i].name@, v[i].arguments@))
}

/// A message of the conversation handed to the agent.
#[derive(Debug)]
pub struct AgentMessage {
    pub role: Role,
    pub content: String,
    pub reasoning_content: Option<String>,
    pub tool_calls: Option<Vec<ToolCall>>,
    pub tool_call_id: Option<String>,
    pub name: Option<String>,
}

/// The mathematical content of an [`AgentMessage`].
pub struct MessageView {
    pub role: Role,
    pub content: Seq<char>,
    pub reasoning_content: Option<Seq<char>>,
    pub tool_calls: Option<Seq<CallView>>,
    pub tool_call_id: Option<Seq<char>>,
    pub name: Option<Seq<char>>,
}

impl View for AgentMessage {
    type V = MessageView;

    open spec fn view(&self) -> MessageView {
        MessageView {
            role: self.role,
            content: self.content@,
            reasoning_content: opt_view(self.reasoning_content),
            tool_calls: match self.tool_calls {
                Some(c) => Some(calls_view(c@)),
                None => None,
            },
            tool_call_id: opt_view(self.tool_call_id),
            name: opt_view(self.name),
        }
    }
}

pub open spec fn msgs_view(v: Seq<AgentMessage>) -> Seq<MessageView> {
    Seq::new(v.len(), |i: int| v[i]@)
}

/// The agent's form of a stored session message.
pub open spec fn agent_view_of(m: SessionMessage) -> MessageView {
    MessageView {
        role: role_named(m.role@),
        content: m.content@,
        reasoning_content: opt_view(m.reasoning_content),
        tool_calls: match m.tool_calls {
            Some(c) => Some(stored_calls_view(c@)),
            None => None,
        },
        tool_call_id: opt_view(m.tool_call_id),
        name: opt_view(m.name),
    }
}

fn copy_text(s: &String) -> (r: String)
    ensures
        r@ == s@,
{
    s.clone()
}

pub fn copy_opt_text(o: &Option<String>) -> (r: Option<String>)
    ensures
        opt_view(r) == opt_view(*o),
{
    match o {
        Some(s) => Some(s.clone()),
        None => None,
    }
}

fn copy_call(c: &ToolCall) -> (r: ToolCall)
    ensures
        call_view(r) == call_view(*c),
{
    ToolCall { id: c.id.clone(), name: c.name.clone(), arguments: c.arguments.clone() }
}

fn agent_calls(v: &Vec<SessionToolCall>) -> (r: Vec<ToolCall>)
    ensures
        calls_view(r@) == stored_calls_view(v@),
{
    let mut r: Vec<ToolCall> = Vec::new();
    for i in 0..v.len()
        invariant
            r@.len() == i,
            forall|j: int|
                0 <= j < i ==> #[trigger] call_view(r@[j]) == (v@[j].id@, v@[j].name@, v@[j].arguments@),
    {
        r.push(ToolCall { id: v[i].id.clone(), name: v[i].name.clone(), arguments: v[i].arguments.clone() });
    }
    assert(calls_view(r@) =~= stored_calls_view(v@));
    r
}

fn copy_calls(v: &Vec<ToolCall>) -> (r: Vec<ToolCall>)
    ensures
        calls_view(r@) == calls_view(v@),
{
    let mut r: Vec<ToolCall> = Vec::new();
    for i in 0..v.len()
        invariant
            r@.len() == i,
            forall|j: int| 0 <= j < i ==> #[trigger] call_view(r@[j]) == call_view(v@[j]),
    {
        r.push(copy_call(&v[i]));
    }
    assert(calls_view(r@) =~= calls_view(v@));
    r
}

/// A copy of a message, field for field.
pub fn copy_message(m: &AgentMessage) -> (r: AgentMessage)
    ensures
        r@ == m@,
{
    AgentMessage {
        role: m.role,
        content: copy_text(&m.content),
        reasoning_content: copy_opt_text(&m.reasoning_content),
        tool_calls: match &m.tool_calls {
            Some(c) => Some(copy_calls(c)),
            None => None,
        },
        tool_call_id: copy_opt_text(&m.tool_call_id),
        name: copy_opt_text(&m.name),
    }
}

fn agent_message(m: &SessionMessage) -> (r: AgentMessage)
    ensures
        r@ == agent_view_of(*m),
{
    AgentMessage {
        role: role_from_session(m.role.as_str()),
        content: copy_text(&m.content),
        reasoning_content: copy_opt_text(&m.reasoning_content),
        tool_calls: match &m.tool_calls {
            Some(c) => Some(agent_calls(c)),
            None => None,
        },
        tool_call_id: copy_opt_text(&m.tool_call_id),
        name: copy_opt_text(&m.name),
    }
}

/// The stored messages of a session, in order, as the agent takes them.
pub fn messages_for_agent(session: &Session) -> (r: Vec<AgentMessage>)
    ensures
        msgs_view(r@) == Seq::new(
            session.messages@.len(),
            |i: int| agent_view_of(session.messages@[i]),
        ),
{
    let mut r: Vec<AgentMessage> = Vec::new();
    for i in 0..session.messages.len()
        invariant
            r@.len() == i,
            forall|j: int| 0 <= j < i ==> #[trigger] r@[j]@ == agent_view_of(session.messages@[j]),
    {
        r.push(agent_message(&session.messages[i]));
    }
    assert(msgs_view(r@) =~= Seq::new(
        session.messages@.len(),
        |i: int| agent_view_of(session.messages@[i]),
    ));
    r
}

// ---------------------------------------------------------------------------
// Merging a rendered prompt into the history of a thread.
// ---------------------------------------------------------------------------

/// The first index at or after `from` whose message has the role.
pub open spec fn find_role(ms: Seq<MessageView>, role: Role, from: int) -> Option<int>
    decreases ms.len() - from,
{
    if from < 0 || from >= ms.len() {
        None
    } else if ms[from].role == role {
        Some(from)
    } else {
        find_role(ms, role, from + 1)
    }
}

pub open spec fn with_content(m: MessageView, content: Seq<char>) -> MessageView {
    MessageView { content, ..m }
}

/// One rendered message merged into the history: a system prompt replaces
/// the text of the first system message (or is appended); a user message
/// replaces the text of the first user message at or after `start` (or is
/// appended); other roles leave the history as it is.
pub open spec fn merge_one(ms: Seq<MessageView>, start: int, r: MessageView) -> Seq<MessageView> {
    if r.role == Role::System {
        match find_role(ms, Role::System, 0) {
            Some(k) => ms.update(k, with_content(ms[k], r.content)),
            None => ms.push(r),
        }
    } else if r.role == Role::User {
        match find_role(ms, Role::User, start) {
            Some(k) => ms.update(k, with_content(ms[k], r.content)),
            None => ms.push(r),
        }
    } else {
        ms
    }
}

pub open spec fn merge_all(ms: Seq<MessageView>, start: int, rendered: Seq<MessageView>) -> Seq<
    MessageView,
>
    decreases rendered.len(),
{
    if rendered.len() == 0 {
        ms
    } else {
        merge_one(merge_all(ms, start, rendered.drop_last()), start, rendered.last())
    }
}

pub proof fn lemma_find_role_bounds(ms: Seq<MessageView>, role: Role, from: int)
    requires
        0 <= from,
    ensures
        find_role(ms, role, from) matches Some(k) ==> from <= k < ms.len() && ms[k].role == role,
        find_role(ms, role, from) is None ==> forall|k: int|
            from <= k < ms.len() ==> #[trigger] ms[k].role != role,
    decreases ms.len() - from,
{
    if 0 <= from < ms.len() && ms[from].role != role {
        lemma_find_role_bounds(ms, role, from + 1);
    }
}

fn find_role_index(ms: &Vec<AgentMessage>, role: Role, from: usize) -> (r: Option<usize>)
    ensures
        match r {
            Some(k) => find_role(msgs_view(ms@), role, from as int) == Some(k as int),
            None => find_role(msgs_view(ms@), role, from as int) is None,
        },
{
    let ghost v = msgs_view(ms@);
    let mut i = from;
    while i < ms.len()
        invariant
            from <= i,
            v == msgs_view(ms@),
            find_role(v, role, from as int) == find_role(v, role, i as int),
        decreases ms.len() - i,
    {
        assert(v[i as int] == ms@[i as int]@);
        if ms[i].role == role {
            return Some(i);
        }
        i += 1;
    }
    None
}

fn replace_content(ms: &mut Vec<AgentMessage>, k: usize, content: String)
    requires
        k < old(ms).len(),
    ensures
        msgs_view(final(ms)@) == msgs_view(old(ms)@).update(
            k as int,
            with_content(old(ms)@[k as int]@, content@),
        ),
{
    let mut m = ms.remove(k);
    m.content = content;
    ms.insert(k, m);
    assert(msgs_view(ms@) =~= msgs_view(old(ms)@).update(
        k as int,
        with_content(old(ms)@[k as int]@, content@),
    ));
}

/// Merges the messages of a rendered prompt into the conversation history
/// of a thread.
pub fn merge_rendered_into_history(messages: Vec<AgentMessage>, rendered: &Vec<AgentMessage>) -> (r:
    Vec<AgentMessage>)
    ensures
        msgs_view(r@) == merge_all(msgs_view(messages@), messages@.len() as int, msgs_view(rendered@)),
{
    let mut messages = messages;
    let start = messages.len();
    let ghost orig = msgs_view(messages@);
    let ghost rv = msgs_view(rendered@);
    for i in 0..rendered.len()
        invariant
            rv == msgs_view(rendered@),
            msgs_view(messages@) == merge_all(orig, start as int, rv.take(i as int)),
    {
        let ghost before = msgs_view(messages@);
        assert(rv.take(i + 1).drop_last() =~= rv.take(i as int));
        let msg = &rendered[i];
        if msg.role == Role::System {
            match find_role_index(&messages, Role::System, 0) {
                Some(k) => {
                    proof {
                        lemma_find_role_bounds(before, Role::System, 0);
                    }
                    replace_content(&mut messages, k, copy_text(&msg.content));
                },
                None => {
                    messages.push(copy_message(msg));
                    assert(msgs_view(messages@) =~= before.push(rv[i as int]));
                },
            }
        } else if msg.role == Role::User {
            match find_role_index(&messages, Role::User, start) {
                Some(k) => {
                    proof {
                        lemma_find_role_bounds(before, Role::User, start as int);
                    }
                    replace_content(&mut messages, k, copy_text(&msg.content));
                },
                None => {
                    messages.push(copy_message(msg));
                    assert(msgs_view(messages@) =~= before.push(rv[i as int]));
                },
            }
        }
    }
    assert(rv.take(rendered.len() as int) =~= rv);
    messages
}

} // verus!
