//! Conversation sessions: the stored transcript of a thread, its title,
//! identifiers and file names, and the order in which saved sessions list.

use crate::text::{
    chars_of, decimal, lemma_lex_lt_irreflexive, lemma_lex_lt_transitive, lex_less, lex_lt, decimal_chars, eq_str, extend_chars, extend_str, hex_bytes, hex_chars,
    is_ascii_alnum, lower, slice_chars, squash_whitespace, squash_ws, string_of, to_lower,
};
use sha2::Digest;
use vstd::prelude::*;

verus! {

/// Longest accepted session id, in bytes.
pub const MAX_SESSION_ID_LEN: usize = 128;

/// A saved conversation thread.
#[derive(Debug)]
pub struct Session {
    pub id: String,
    pub model: String,
    pub provider: String,
    pub title: Option<String>,
    pub messages: Vec<SessionMessage>,
    pub created_at: String,
    pub updated_at: String,
}

/// One message of a session.
#[derive(Debug)]
pub struct SessionMessage {
    pub role: String,
    pub content: String,
    pub reasoning_content: Option<String>,
    pub tool_calls: Option<Vec<SessionToolCall>>,
    pub tool_call_id: Option<String>,
    pub name: Option<String>,
}

/// A tool call recorded on an assistant message.
#[derive(Debug)]
pub struct SessionToolCall {
    pub id: String,
    pub name: String,
    pub arguments: String,
}

/// What the session list shows of one saved session.
#[derive(Debug)]
pub struct SessionSummary {
    pub id: String,
    pub model: String,
    pub provider: String,
    pub title: Option<String>,
    pub created_at: String,
    pub updated_at: String,
    pub message_count: usize,
}

/// The directory that holds saved sessions, one `<id>.json` file each.
#[derive(Debug)]
pub struct SessionManager {
    pub dir: String,
}

/// Why a session operation was refused.
#[derive(Debug, PartialEq, Eq, Structural)]
pub enum SessionError {
    /// The id is empty, longer than the limit, or holds a character other than
    /// an ASCII letter, digit, `-` or `_`.
    InvalidId,
}

impl SessionError {
    pub fn message(&self) -> (r: String)
        ensures
            r@ == "Invalid session id: format or length violation"@,
    {
        "Invalid session id: format or length violation".to_owned()
    }
}

pub open spec fn opt_view(o: Option<String>) -> Option<Seq<char>> {
    match o {
        Some(s) => Some(s@),
        None => None,
    }
}

/// The title a session takes from a user message: its words joined by single
/// spaces, cut to 80 characters; none when the message has no words.
pub open spec fn title_of(content: Seq<char>) -> Option<Seq<char>> {
    let t = squash_ws(content);
    if t.len() == 0 {
        None
    } else if t.len() <= 80 {
        Some(t)
    } else {
        Some(t.take(80))
    }
}

pub fn title_from_content(content: &str) -> (r: Option<String>)
    ensures
        opt_view(r) == title_of(content@),
{
    let c = chars_of(content);
    let t = squash_whitespace(&c);
    if t.len() == 0 {
        None
    } else if t.len() <= 80 {
        Some(string_of(&t))
    } else {
        let cut = slice_chars(&t, 0, 80);
        Some(string_of(&cut))
    }
}

/// A role name that `eq_ignore_ascii_case` matches with `user`.
pub open spec fn is_user_role(role: Seq<char>) -> bool {
    lower(role) == "user"@
}

pub fn role_is_user(role: &str) -> (r: bool)
    ensures
        r == is_user_role(role@),
{
    let c = chars_of(role);
    let l = to_lower(&c);
    eq_str(&l, "user")
}

pub open spec fn plain_message(m: SessionMessage, role: Seq<char>, content: Seq<char>) -> bool {
    &&& m.role@ == role
    &&& m.content@ == content
    &&& m.reasoning_content is None
    &&& m.tool_calls is None
    &&& m.tool_call_id is None
    &&& m.name is None
}

pub open spec fn valid_id_char(c: char) -> bool {
    is_ascii_alnum(c) || c == '-' || c == '_'
}

/// The ids that may name a session file.
pub open spec fn valid_session_id(id: Seq<char>) -> bool {
    &&& 0 < id.len() <= MAX_SESSION_ID_LEN
    &&& forall|i: int| 0 <= i < id.len() ==> valid_id_char(#[trigger] id[i])
}

pub fn validate_session_id(id: &str) -> (r: Result<(), SessionError>)
    ensures
        r is Ok <==> valid_session_id(id@),
        r is Err ==> r == Err::<(), SessionError>(SessionError::InvalidId),
{
    let c = chars_of(id);
    if c.len() == 0 || c.len() > MAX_SESSION_ID_LEN {
        return Err(SessionError::InvalidId);
    }
    for i in 0..c.len()
        invariant
            c@ == id@,
            forall|k: int| 0 <= k < i ==> valid_id_char(#[trigger] c@[k]),
    {
        let ch = c[i];
        let n = ch as u32;
        let ok = (48 <= n && n <= 57) || (65 <= n && n <= 90) || (97 <= n && n <= 122) || ch
            == '-' || ch == '_';
        if !ok {
            return Err(SessionError::InvalidId);
        }
    }
    Ok(())
}

/// `Path::join` of a relative component onto a base path.
pub open spec fn path_join(base: Seq<char>, part: Seq<char>) -> Seq<char> {
    if part.len() > 0 && part[0] == '/' {
        part
    } else if base.len() == 0 || base.last() == '/' {
        base + part
    } else {
        base + seq!['/'] + part
    }
}

pub fn join_path(base: &str, part: &str) -> (r: String)
    ensures
        r@ == path_join(base@, part@),
{
    let b = chars_of(base);
    let p = chars_of(part);
    if p.len() > 0 && p[0] == '/' {
        return part.to_owned();
    }
    let mut r = b;
    if r.len() > 0 && r[r.len() - 1] != '/' {
        r.push('/');
    }
    extend_chars(&mut r, &p);
    string_of(&r)
}

/// An RFC 3339 time stamp as chrono writes one: a date and time of at least
/// nineteen characters, then the offset from UTC as `+HH:MM` or `-HH:MM`.
pub open spec fn rfc3339_stamp(s: Seq<char>) -> bool {
    &&& s.len() >= 25
    &&& (s[s.len() - 6] == '+' || s[s.len() - 6] == '-')
    &&& s[s.len() - 3] == ':'
}

/// Reads the local time as an RFC 3339 timestamp (chrono `Local::now`,
/// `to_rfc3339`). The clock and the time zone decide which time it is: only
/// the shape chrono writes is stated (`write_rfc3339` writes the date, `T`,
/// the time, an optional fraction and a zero-padded `±HH:MM` offset).
#[verifier::external_body]
fn now_rfc3339() -> (r: String)
    ensures
        rfc3339_stamp(r@),
{
    chrono::Local::now().to_rfc3339()
}

/// Nanoseconds since the Unix epoch, zero before it (std `SystemTime::now`).
/// The clock decides it: nothing is stated.
#[verifier::external_body]
fn unix_nanos() -> u128 {
    std::time::SystemTime::now()
        .duration_since(std::time::UNIX_EPOCH)
        .unwrap_or_default()
        .as_nanos()
}

/// SHA-256 digest of the UTF-8 bytes of a text.
pub uninterp spec fn sha256_of(text: Seq<char>) -> Seq<u8>;

/// sha2 `Sha256::digest` of the text's UTF-8 bytes: the digest, 32 bytes.
#[verifier::external_body]
fn sha256_digest(text: &str) -> (r: Vec<u8>)
    ensures
        r@ == sha256_of(text@),
        r@.len() == 32,
{
    sha2::Sha256::digest(text.as_bytes()).to_vec()
}

/// The text a new session's id is hashed from: `model|provider|nanos`.
pub open spec fn id_seed(model: Seq<char>, provider: Seq<char>, nanos: nat) -> Seq<char> {
    model + seq!['|'] + provider + seq!['|'] + decimal(nanos)
}

/// The id of a session created at `nanos`: the first eight digest bytes as
/// sixteen lowercase hex digits.
pub open spec fn session_id_for(model: Seq<char>, provider: Seq<char>, nanos: nat) -> Seq<char> {
    hex_bytes(sha256_of(id_seed(model, provider, nanos)).take(8))
}

/// The session id for a creation time, from the digest of the seed.
pub fn session_id(model: &str, provider: &str, nanos: u128) -> (r: String)
    ensures
        r@ == session_id_for(model@, provider@, nanos as nat),
        new_session_id(r@),
{
    let mut seed = chars_of(model);
    seed.push('|');
    extend_str(&mut seed, provider);
    seed.push('|');
    let d = decimal_chars(nanos);
    extend_chars(&mut seed, &d);
    assert(seed@ =~= id_seed(model@, provider@, nanos as nat));
    let seed_text = string_of(&seed);
    let digest = sha256_digest(&seed_text);
    let hex = hex_chars(&digest, 8);
    proof {
        lemma_hex_len(digest@.take(8));
        lemma_hex_id_chars(digest@.take(8));
    }
    string_of(&hex)
}

/// A lowercase hexadecimal digit.
pub open spec fn lower_hex_digit(c: char) -> bool {
    ('0' <= c && c <= '9') || ('a' <= c && c <= 'f')
}

/// What a new session is named: sixteen lowercase hex digits, which makes a
/// valid session id.
pub open spec fn new_session_id(id: Seq<char>) -> bool {
    &&& id.len() == 16
    &&& forall|i: int| 0 <= i < id.len() ==> lower_hex_digit(#[trigger] id[i])
    &&& valid_session_id(id)
}

/// Hex digits are lowercase letters and digits.
proof fn lemma_hex_id_chars(b: Seq<u8>)
    ensures
        forall|i: int| 0 <= i < hex_bytes(b).len() ==> valid_id_char(#[trigger] hex_bytes(b)[i])
            && lower_hex_digit(hex_bytes(b)[i]),
    decreases b.len(),
{
    if b.len() > 0 {
        lemma_hex_id_chars(b.drop_last());
        let hi = (b.last() / 16) as nat;
        let lo = (b.last() % 16) as nat;
        let h = hex_bytes(b.drop_last());
        let full = h.push(crate::text::digit_char(hi)).push(crate::text::digit_char(lo));
        assert(valid_id_char(crate::text::digit_char(hi)) && lower_hex_digit(crate::text::digit_char(hi)));
        assert(valid_id_char(crate::text::digit_char(lo)) && lower_hex_digit(crate::text::digit_char(lo)));
        assert(hex_bytes(b) == full);
        assert forall|i: int| 0 <= i < full.len() implies valid_id_char(#[trigger] full[i]) && lower_hex_digit(full[i]) by {
            if i < h.len() {
                assert(full[i] == h[i]);
            }
        }
    }
}

/// The SHA-256 digest of a text as 64 lowercase hex digits (what
/// `config hash` writes beside an agent profile).
pub fn content_hash(text: &str) -> (r: String)
    ensures
        r@ == hex_bytes(sha256_of(text@)),
        r@.len() == 64,
{
    let digest = sha256_digest(text);
    let hex = hex_chars(&digest, 32);
    assert(digest@.take(32) =~= digest@);
    proof {
        lemma_hex_len(digest@);
    }
    string_of(&hex)
}

/// Two hex digits per byte.
proof fn lemma_hex_len(b: Seq<u8>)
    ensures
        hex_bytes(b).len() == 2 * b.len(),
    decreases b.len(),
{
    if b.len() > 0 {
        lemma_hex_len(b.drop_last());
    }
}

/// The title taken from the first user message, if any.
fn first_user_title(msgs: &Vec<SessionMessage>) -> (r: Option<String>)
    ensures
        forall|k: int|
            #![trigger msgs@[k]]
            0 <= k < msgs@.len() && is_user_role(msgs@[k].role@) && (forall|j: int|
                0 <= j < k ==> !is_user_role(#[trigger] msgs@[j].role@)) ==> opt_view(r)
                == title_of(msgs@[k].content@),
        (forall|j: int| 0 <= j < msgs@.len() ==> !is_user_role(#[trigger] msgs@[j].role@))
            ==> r is None,
{
    let mut i: usize = 0;
    while i < msgs.len()
        invariant
            i <= msgs.len(),
            forall|j: int| 0 <= j < i ==> !is_user_role(#[trigger] msgs@[j].role@),
        decreases msgs.len() - i,
    {
        if role_is_user(msgs[i].role.as_str()) {
            return title_from_content(msgs[i].content.as_str());
        }
        i += 1;
    }
    None
}

impl Session {
    /// A new, empty session, identified by the hash of model, provider and the
    /// current time.
    pub fn new(model: String, provider: String) -> (r: Session)
        ensures
            r.model@ == model@,
            r.provider@ == provider@,
            r.title is None,
            r.messages@.len() == 0,
            r.created_at@ == r.updated_at@,
            exists|nanos: nat| r.id@ == session_id_for(model@, provider@, nanos),
            new_session_id(r.id@),
    {
        let nanos = unix_nanos();
        let timestamp = now_rfc3339();
        Session::created_at(model, provider, nanos, timestamp)
    }

    /// A new, empty session created at the given time.
    pub fn created_at(model: String, provider: String, nanos: u128, timestamp: String) -> (r:
        Session)
        ensures
            r.id@ == session_id_for(model@, provider@, nanos as nat),
            new_session_id(r.id@),
            r.model@ == model@,
            r.provider@ == provider@,
            r.title is None,
            r.messages@.len() == 0,
            r.created_at@ == timestamp@,
            r.updated_at@ == timestamp@,
    {
        let id = session_id(model.as_str(), provider.as_str(), nanos);
        let updated = timestamp.clone();
        Session {
            id,
            model,
            provider,
            title: None,
            messages: Vec::new(),
            created_at: timestamp,
            updated_at: updated,
        }
    }

    /// Appends a plain message. The first user message also names an untitled
    /// session.
    pub fn push_message(&mut self, role: &str, content: String)
        ensures
            final(self).messages@.len() == old(self).messages@.len() + 1,
            final(self).messages@.take(old(self).messages@.len() as int) == old(
                self,
            ).messages@,
            plain_message(final(self).messages@.last(), role@, content@),
            opt_view(final(self).title) == if is_user_role(role@) && old(self).title is None {
                title_of(content@)
            } else {
                opt_view(old(self).title)
            },
            final(self).id == old(self).id,
            final(self).model == old(self).model,
            final(self).provider == old(self).provider,
            final(self).created_at == old(self).created_at,
            final(self).updated_at == old(self).updated_at,
    {
        if role_is_user(role) && self.title.is_none() {
            self.title = title_from_content(content.as_str());
        }
        let ghost before = self.messages@;
        self.messages.push(
            SessionMessage {
                role: role.to_owned(),
                content,
                reasoning_content: None,
                tool_calls: None,
                tool_call_id: None,
                name: None,
            },
        );
        assert(self.messages@.take(before.len() as int) =~= before);
    }

    /// Records one exchange: the model and provider that answered, the user
    /// message and the assistant's reply, and the time of the change.
    pub fn append_turn(&mut self, model: String, provider: String, user: String, assistant: String)
        ensures
            final(self).model@ == model@,
            final(self).provider@ == provider@,
            final(self).messages@.len() == old(self).messages@.len() + 2,
            final(self).messages@.take(old(self).messages@.len() as int) == old(
                self,
            ).messages@,
            plain_message(final(self).messages@[old(self).messages@.len() as int], "user"@, user@),
            plain_message(final(self).messages@.last(), "assistant"@, assistant@),
            opt_view(final(self).title) == if old(self).title is None {
                title_of(user@)
            } else {
                opt_view(old(self).title)
            },
            final(self).id == old(self).id,
            final(self).created_at == old(self).created_at,
    {
        proof {
            reveal_strlit("user");
            reveal_strlit("assistant");
        }
        self.model = model;
        self.provider = provider;
        let ghost before = self.messages@;
        self.push_message("user", user);
        let ghost middle = self.messages@;
        self.push_message("assistant", assistant);
        assert(self.messages@.take(before.len() as int) =~= before) by {
            assert(middle.take(before.len() as int) =~= before);
            assert(self.messages@.take(middle.len() as int) =~= middle);
        }
        assert(self.messages@[before.len() as int] == middle.last());
        assert(lower("user"@) =~= "user"@);
        assert(!(lower("assistant"@) =~= "user"@)) by {
            assert(lower("assistant"@).len() != "user"@.len());
        }
        self.touch();
    }

    /// Records one exchange with everything the turn produced: the model and
    /// provider that answered, the user message, then the turn's messages
    /// (the assistant's reply with its tool calls, the tool results), and the
    /// time of the change.
    pub fn append_exchange(&mut self, model: String, provider: String, user: String, turn: Vec<SessionMessage>)
        ensures
            final(self).model@ == model@,
            final(self).provider@ == provider@,
            final(self).messages@.len() == old(self).messages@.len() + 1 + turn@.len(),
            final(self).messages@.take(old(self).messages@.len() as int) == old(self).messages@,
            plain_message(final(self).messages@[old(self).messages@.len() as int], "user"@, user@),
            final(self).messages@.skip(old(self).messages@.len() + 1int) == turn@,
            opt_view(final(self).title) == if old(self).title is None {
                title_of(user@)
            } else {
                opt_view(old(self).title)
            },
            final(self).id == old(self).id,
            final(self).created_at == old(self).created_at,
            rfc3339_stamp(final(self).updated_at@),
    {
        proof {
            reveal_strlit("user");
        }
        self.model = model;
        self.provider = provider;
        let ghost before = self.messages@;
        self.push_message("user", user);
        assert(lower("user"@) =~= "user"@);
        let ghost middle = self.messages@;
        let mut turn = turn;
        self.messages.append(&mut turn);
        assert(self.messages@.take(before.len() as int) =~= before) by {
            assert(middle.take(before.len() as int) =~= before);
        }
        assert(self.messages@[before.len() as int] == middle.last());
        self.touch();
    }

    /// Fills what an older file may lack: the update time falls back to the
    /// creation time, and an untitled session takes its title from its first
    /// user message.
    pub fn normalize(&mut self)
        ensures
            final(self).updated_at@ == if old(self).updated_at@.len() == 0 {
                old(self).created_at@
            } else {
                old(self).updated_at@
            },
            old(self).title is Some ==> final(self).title == old(self).title,
            old(self).title is None ==> (forall|k: int|
                #![trigger old(self).messages@[k]]
                0 <= k < old(self).messages@.len() && is_user_role(
                    old(self).messages@[k].role@,
                ) && (forall|j: int|
                    0 <= j < k ==> !is_user_role(#[trigger] old(self).messages@[j].role@))
                    ==> opt_view(final(self).title) == title_of(
                    old(self).messages@[k].content@,
                )),
            old(self).title is None && (forall|j: int|
                0 <= j < old(self).messages@.len() ==> !is_user_role(
                    #[trigger] old(self).messages@[j].role@,
                )) ==> final(self).title is None,
            final(self).messages == old(self).messages,
            final(self).id == old(self).id,
            final(self).model == old(self).model,
            final(self).provider == old(self).provider,
            final(self).created_at == old(self).created_at,
    {
        if self.updated_at.as_str().is_empty() {
            self.updated_at = self.created_at.clone();
        }
        if self.title.is_none() {
            self.title = first_user_title(&self.messages);
        }
    }

    /// Stamps the session with the current time.
    fn touch(&mut self)
        ensures
            rfc3339_stamp(final(self).updated_at@),
            final(self).id == old(self).id,
            final(self).model == old(self).model,
            final(self).provider == old(self).provider,
            final(self).title == old(self).title,
            final(self).messages == old(self).messages,
            final(self).created_at == old(self).created_at,
    {
        self.updated_at = now_rfc3339();
    }
}

/// Adds one exchange to the previous session of the thread, or to a new
/// session when there is none.
pub fn finalize_session_turn(
    previous_session: Option<Session>,
    model: String,
    provider: String,
    user: String,
    assistant: String,
) -> (r: Session)
    ensures
        previous_session is Some ==> r.id == previous_session->0.id && r.messages@.take(
            previous_session->0.messages@.len() as int,
        ) == previous_session->0.messages@ && r.messages@.len()
            == previous_session->0.messages@.len() + 2 && r.created_at
            == previous_session->0.created_at && opt_view(r.title) == if previous_session->0.title is None {
            title_of(user@)
        } else {
            opt_view(previous_session->0.title)
        },
        previous_session is None ==> r.messages@.len() == 2 && opt_view(r.title) == title_of(
            user@,
        ) && (exists|nanos: nat| r.id@ == session_id_for(model@, provider@, nanos)) && new_session_id(r.id@),
        r.model@ == model@,
        r.provider@ == provider@,
        plain_message(r.messages@[r.messages@.len() - 2], "user"@, user@),
        plain_message(r.messages@.last(), "assistant"@, assistant@),
{
    let mut session = match previous_session {
        Some(s) => s,
        None => Session::new(model.clone(), provider.clone()),
    };
    session.append_turn(model, provider, user, assistant);
    session
}

/// Adds one exchange, with its tool calls and results, to the previous
/// session of the thread, or to a new session when there is none.
pub fn finalize_session_exchange(
    previous_session: Option<Session>,
    model: String,
    provider: String,
    user: String,
    turn: Vec<SessionMessage>,
) -> (r: Session)
    ensures
        ({
            let before = match previous_session {
                Some(p) => p.messages@,
                None => Seq::<SessionMessage>::empty(),
            };
            &&& r.messages@.len() == before.len() + 1 + turn@.len()
            &&& r.messages@.take(before.len() as int) == before
            &&& plain_message(r.messages@[before.len() as int], "user"@, user@)
            &&& r.messages@.skip(before.len() + 1int) == turn@
        }),
        previous_session is Some ==> r.id == previous_session->0.id && r.created_at
            == previous_session->0.created_at && opt_view(r.title) == if previous_session->0.title is None {
            title_of(user@)
        } else {
            opt_view(previous_session->0.title)
        },
        previous_session is None ==> opt_view(r.title) == title_of(user@) && (exists|nanos: nat|
            r.id@ == session_id_for(model@, provider@, nanos)) && new_session_id(r.id@),
        r.model@ == model@,
        r.provider@ == provider@,
        rfc3339_stamp(r.updated_at@),
{
    let mut session = match previous_session {
        Some(s) => s,
        None => Session::new(model.clone(), provider.clone()),
    };
    session.append_exchange(model, provider, user, turn);
    session
}

impl SessionSummary {
    /// What the list shows of a loaded session.
    pub fn of(session: Session) -> (r: SessionSummary)
        ensures
            r.id == session.id,
            r.model == session.model,
            r.provider == session.provider,
            r.title == session.title,
            r.created_at == session.created_at,
            r.updated_at == session.updated_at,
            r.message_count == session.messages@.len(),
    {
        let message_count = session.messages.len();
        SessionSummary {
            id: session.id,
            model: session.model,
            provider: session.provider,
            title: session.title,
            created_at: session.created_at,
            updated_at: session.updated_at,
            message_count,
        }
    }
}


/// Milliseconds since the Unix epoch of an RFC 3339 timestamp, if it parses.
pub uninterp spec fn rfc3339_millis(text: Seq<char>) -> Option<i64>;

/// chrono `DateTime::parse_from_rfc3339`, then `timestamp_millis`: the
/// instant's milliseconds, or nothing when the text does not parse.
#[verifier::external_body]
fn parse_rfc3339_millis(text: &str) -> (r: Option<i64>)
    ensures
        r == rfc3339_millis(text@),
{
    chrono::DateTime::parse_from_rfc3339(text).ok().map(|dt| dt.timestamp_millis())
}

/// The instant a listed session sorts by: its update time, zero when that
/// does not parse.
pub open spec fn sort_key(timestamp: Seq<char>) -> i64 {
    match rfc3339_millis(timestamp) {
        Some(m) => m,
        None => 0,
    }
}

pub fn session_sort_key(timestamp: &str) -> (r: i64)
    ensures
        r == sort_key(timestamp@),
{
    match parse_rfc3339_millis(timestamp) {
        Some(m) => m,
        None => 0,
    }
}

/// The session list shows `a` above `b`: `a` was updated later, or at the
/// same instant with the greater id.
pub open spec fn listed_before(a: SessionSummary, b: SessionSummary) -> bool {
    sort_key(a.updated_at@) > sort_key(b.updated_at@) || (sort_key(a.updated_at@) == sort_key(
        b.updated_at@,
    ) && lex_lt(b.id@, a.id@))
}

pub open spec fn listed_in_order(s: Seq<SessionSummary>) -> bool {
    forall|i: int, j: int| 0 <= i < j < s.len() ==> !listed_before(#[trigger] s[j], #[trigger] s[i])
}

pub proof fn lemma_listed_before_transitive(a: SessionSummary, b: SessionSummary, c: SessionSummary)
    requires
        listed_before(a, b),
        listed_before(b, c),
    ensures
        listed_before(a, c),
{
    if sort_key(a.updated_at@) == sort_key(b.updated_at@) && sort_key(b.updated_at@) == sort_key(
        c.updated_at@,
    ) {
        lemma_lex_lt_transitive(c.id@, b.id@, a.id@);
    }
}

/// Law: a listing in display order never shows a session above one that
/// was updated later, and among sessions updated at the same instant the
/// greater id comes first.
pub proof fn law_listing_newest_first(s: Seq<SessionSummary>, i: int, j: int)
    requires
        listed_in_order(s),
        0 <= i < j < s.len(),
    ensures
        sort_key(s[i].updated_at@) >= sort_key(s[j].updated_at@),
        sort_key(s[i].updated_at@) == sort_key(s[j].updated_at@) ==> !lex_lt(s[i].id@, s[j].id@),
{
    assert(!listed_before(s[j], s[i]));
}

/// Law: a session that nothing is listed before was updated last of all.
pub proof fn law_first_listed_is_most_recent(s: Seq<SessionSummary>, k: int)
    requires
        0 <= k < s.len(),
        forall|j: int| 0 <= j < s.len() ==> !listed_before(#[trigger] s[j], s[k]),
    ensures
        forall|j: int| 0 <= j < s.len() ==> sort_key(#[trigger] s[j].updated_at@) <= sort_key(s[k].updated_at@),
{
    assert forall|j: int| 0 <= j < s.len() implies sort_key(#[trigger] s[j].updated_at@) <= sort_key(
        s[k].updated_at@,
    ) by {
        assert(!listed_before(s[j], s[k]));
    }
}

fn summary_listed_before(a: &SessionSummary, b: &SessionSummary) -> (r: bool)
    ensures
        r == listed_before(*a, *b),
{
    let ka = session_sort_key(a.updated_at.as_str());
    let kb = session_sort_key(b.updated_at.as_str());
    if ka != kb {
        return ka > kb;
    }
    let ia = chars_of(a.id.as_str());
    let ib = chars_of(b.id.as_str());
    lex_less(&ib, &ia)
}

/// Puts listed sessions in display order: most recently updated first, ties
/// by descending id; the sort is stable.
pub fn order_summaries(v: Vec<SessionSummary>) -> (r: Vec<SessionSummary>)
    ensures
        r@.to_multiset() == v@.to_multiset(),
        listed_in_order(r@),
{
    broadcast use vstd::seq_lib::group_to_multiset_ensures;

    let mut rest = v;
    let mut out: Vec<SessionSummary> = Vec::new();
    let ghost orig = rest@;
    while rest.len() > 0
        invariant
            out@.to_multiset().add(rest@.to_multiset()) == orig.to_multiset(),
            listed_in_order(out@),
        decreases rest.len(),
    {
        let ghost rest0 = rest@;
        let x = rest.remove(0);
        proof {
            vstd::seq_lib::to_multiset_remove(rest0, 0);
            assert(rest0.remove(0) =~= rest@);
            assert(rest0[0] == x);
            vstd::seq_lib::to_multiset_contains(rest0, x);
            assert(rest0.contains(x));
            assert(rest0.to_multiset().count(x) > 0);
        }
        let mut p: usize = 0;
        while p < out.len() && !summary_listed_before(&x, &out[p])
            invariant
                p <= out.len(),
                forall|q: int| 0 <= q < p ==> !listed_before(x, #[trigger] out@[q]),
            decreases out.len() - p,
        {
            p += 1;
        }
        let ghost before = out@;
        proof {
            assert forall|q: int| p <= q < before.len() implies !listed_before(
                #[trigger] before[q],
                x,
            ) by {
                if listed_before(before[q], x) {
                    if q > p {
                        assert(!listed_before(before[q], before[p as int]));
                    }
                    lemma_listed_before_transitive(before[q], x, before[p as int]);
                    lemma_lex_lt_irreflexive(before[p as int].id@);
                }
            }
        }
        out.insert(p, x);
        proof {
            vstd::seq_lib::to_multiset_insert(before, p as int, x);
            assert(out@.to_multiset().add(rest@.to_multiset()) =~= orig.to_multiset());
            assert forall|i: int, j: int| 0 <= i < j < out@.len() implies !listed_before(
                #[trigger] out@[j],
                #[trigger] out@[i],
            ) by {
                if i < p && j > p {
                    assert(out@[i] == before[i]);
                    assert(out@[j] == before[j - 1]);
                } else if i < p && j < p {
                    assert(out@[i] == before[i]);
                    assert(out@[j] == before[j]);
                } else if i > p {
                    assert(out@[i] == before[i - 1]);
                    assert(out@[j] == before[j - 1]);
                }
            }
        }
    }
    out
}

impl SessionManager {
    /// A manager over the given directory.
    pub fn from_dir(dir: String) -> (r: SessionManager)
        ensures
            r.dir@ == dir@,
    {
        SessionManager { dir }
    }

    /// The file that holds the session with the given id: `<dir>/<id>.json`,
    /// for valid ids only.
    pub fn session_path(&self, id: &str) -> (r: Result<String, SessionError>)
        ensures
            r is Ok <==> valid_session_id(id@),
            r matches Ok(p) ==> p@ == path_join(self.dir@, id@ + ".json"@),
            r is Err ==> r == Err::<String, SessionError>(SessionError::InvalidId),
    {
        validate_session_id(id)?;
        let mut name = chars_of(id);
        extend_str(&mut name, ".json");
        let file = string_of(&name);
        Ok(join_path(self.dir.as_str(), file.as_str()))
    }

    /// Of the listed sessions, the id of the one the list shows first, which
    /// is the session to continue.
    pub fn latest(&self, listed: Vec<SessionSummary>) -> (r: Option<String>)
        ensures
            r is None <==> listed@.len() == 0,
            r matches Some(id) ==> exists|k: int|
                0 <= k < listed@.len() && #[trigger] listed@[k].id@ == id@ && forall|j: int|
                    0 <= j < listed@.len() ==> !listed_before(#[trigger] listed@[j], listed@[k]),
    {
        broadcast use vstd::seq_lib::group_to_multiset_ensures;

        let ghost orig = listed@;
        let mut ordered = order_summaries(listed);
        if ordered.len() == 0 {
            assert(orig.to_multiset().len() == 0);
            return None;
        }
        proof {
            assert(ordered@.to_multiset().contains(ordered@[0]));
            let k = choose|k: int| 0 <= k < orig.len() && orig[k] == ordered@[0];
            assert forall|j: int| 0 <= j < orig.len() implies !listed_before(
                #[trigger] orig[j],
                orig[k],
            ) by {
                assert(orig.to_multiset().contains(orig[j]));
                let q = choose|q: int| 0 <= q < ordered@.len() && ordered@[q] == orig[j];
                if q > 0 {
                    assert(!listed_before(ordered@[q], ordered@[0]));
                } else {
                    lemma_lex_lt_irreflexive(orig[j].id@);
                }
            }
        }
        let first = ordered.remove(0);
        Some(first.id)
    }
}

} // verus!
