//! The notices the terminal UI and the command line show for saved sessions
//! and loaded plugins: listings, restore and save reports, and the session
//! statistics by model.

use crate::session::SessionSummary;
use crate::text::{
    chars_of, decimal, decimal_chars, eq_chars, extend_chars, extend_str, join, starts_with, starts_with_chars, string_of,
};
use vstd::prelude::*;

verus! {

/// The first `n` characters of a text (all of it when shorter).
pub open spec fn head(s: Seq<char>, n: nat) -> Seq<char> {
    if s.len() <= n {
        s
    } else {
        s.take(n as int)
    }
}

/// A text padded with spaces to `n` characters (`{:<n}`).
pub open spec fn pad_right(s: Seq<char>, n: nat) -> Seq<char> {
    if s.len() < n {
        s + Seq::new((n - s.len()) as nat, |i: int| ' ')
    } else {
        s
    }
}

/// One row of the `/sessions` listing: the id's first eight characters, the
/// message count, the model and the creation time to the minute.
pub open spec fn session_row(s: SessionSummary) -> Seq<char> {
    "  "@ + head(s.id@, 8) + "  "@ + decimal(s.message_count as nat) + " msgs  "@ + s.model@ + "  "@
        + head(s.created_at@, 16)
}

pub open spec fn session_rows(list: Seq<SessionSummary>) -> Seq<Seq<char>> {
    Seq::new(list.len(), |i: int| session_row(list[i]))
}

/// What `/sessions` shows for the saved sessions.
pub open spec fn sessions_notice(list: Seq<SessionSummary>) -> Seq<char> {
    if list.len() == 0 {
        "No saved sessions. Use /sessions restore <id> to load one."@
    } else {
        decimal(list.len()) + " session(s) · /sessions restore <id> to load:\n"@ + join(
            session_rows(list),
            "\n"@,
        )
    }
}

fn head_chars(s: &str, n: usize) -> (r: Vec<char>)
    ensures
        r@ == head(s@, n as nat),
{
    let c = chars_of(s);
    if c.len() <= n {
        c
    } else {
        let mut r: Vec<char> = Vec::new();
        for i in 0..n
            invariant
                n < c.len(),
                r@ == c@.take(i as int),
        {
            r.push(c[i]);
            assert(c@.take(i + 1) =~= c@.take(i as int).push(c@[i as int]));
        }
        r
    }
}

fn session_row_chars(s: &SessionSummary) -> (r: Vec<char>)
    ensures
        r@ == session_row(*s),
{
    let mut r = chars_of("  ");
    let id = head_chars(s.id.as_str(), 8);
    extend_chars(&mut r, &id);
    extend_str(&mut r, "  ");
    let d = decimal_chars(s.message_count as u128);
    extend_chars(&mut r, &d);
    extend_str(&mut r, " msgs  ");
    extend_str(&mut r, s.model.as_str());
    extend_str(&mut r, "  ");
    let c = head_chars(s.created_at.as_str(), 16);
    extend_chars(&mut r, &c);
    r
}

/// The `/sessions` listing of the saved sessions, in the order given.
pub fn sessions_listing(list: &Vec<SessionSummary>) -> (r: String)
    ensures
        r@ == sessions_notice(list@),
{
    if list.len() == 0 {
        return "No saved sessions. Use /sessions restore <id> to load one.".to_owned();
    }
    let mut r = decimal_chars(list.len() as u128);
    extend_str(&mut r, " session(s) · /sessions restore <id> to load:\n");
    let ghost pre = r@;
    for i in 0..list.len()
        invariant
            r@ == pre + join(session_rows(list@).take(i as int), "\n"@),
    {
        let row = session_row_chars(&list[i]);
        let ghost t = session_rows(list@).take(i + 1);
        assert(t.drop_last() =~= session_rows(list@).take(i as int));
        if i > 0 {
            extend_str(&mut r, "\n");
        }
        extend_chars(&mut r, &row);
        proof {
            if i == 0 {
                assert(join(t, "\n"@) == t[0]);
            }
            assert(r@ =~= pre + join(t, "\n"@));
        }
    }
    assert(session_rows(list@).take(list.len() as int) =~= session_rows(list@));
    string_of(&r)
}

/// The session `/sessions restore <id>` loads: the id itself when a session
/// has it (`exact`), else the first listed session whose id starts with it.
pub fn restore_id(exact: bool, id: &str, list: &Vec<SessionSummary>) -> (r: Option<String>)
    ensures
        exact ==> (r matches Some(t) && t@ == id@),
        !exact ==> match r {
            Some(t) => exists|k: int|
                0 <= k < list@.len() && starts_with(#[trigger] list@[k].id@, id@) && t@ == list@[k].id@
                    && (forall|j: int| 0 <= j < k ==> !starts_with(#[trigger] list@[j].id@, id@)),
            None => forall|k: int| 0 <= k < list@.len() ==> !starts_with(#[trigger] list@[k].id@, id@),
        },
{
    if exact {
        return Some(id.to_owned());
    }
    let want = chars_of(id);
    for i in 0..list.len()
        invariant
            !exact,
            want@ == id@,
            forall|j: int| 0 <= j < i ==> !starts_with(#[trigger] list@[j].id@, id@),
    {
        let have = chars_of(list[i].id.as_str());
        if starts_with_chars(&have, &want) {
            return Some(list[i].id.clone());
        }
    }
    None
}

/// What restoring a session reports: its id's first eight characters, its
/// model and its message count.
pub open spec fn restored_text(id: Seq<char>, model: Seq<char>, count: nat) -> Seq<char> {
    "Restored session "@ + head(id, 8) + " ("@ + model + ", "@ + decimal(count) + " messages)."@
}

pub fn restored_notice(id: &str, model: &str, count: usize) -> (r: String)
    ensures
        r@ == restored_text(id@, model@, count as nat),
{
    let mut r = chars_of("Restored session ");
    let h = head_chars(id, 8);
    extend_chars(&mut r, &h);
    extend_str(&mut r, " (");
    extend_str(&mut r, model);
    extend_str(&mut r, ", ");
    let d = decimal_chars(count as u128);
    extend_chars(&mut r, &d);
    extend_str(&mut r, " messages).");
    string_of(&r)
}

/// What `/save` reports after writing the session.
pub open spec fn saved_text(messages: nat, tokens: nat) -> Seq<char> {
    "Session saved ("@ + decimal(messages) + " messages, "@ + decimal(tokens) + " tok)."@
}

pub fn saved_notice(messages: usize, tokens: usize) -> (r: String)
    ensures
        r@ == saved_text(messages as nat, tokens as nat),
{
    let mut r = chars_of("Session saved (");
    let m = decimal_chars(messages as u128);
    extend_chars(&mut r, &m);
    extend_str(&mut r, " messages, ");
    let t = decimal_chars(tokens as u128);
    extend_chars(&mut r, &t);
    extend_str(&mut r, " tok).");
    string_of(&r)
}


/// One row of the `/plugins` listing: the name padded to sixteen characters,
/// then the description.
pub open spec fn plugin_row(p: (String, String)) -> Seq<char> {
    "  "@ + pad_right(p.0@, 16) + " "@ + p.1@
}

pub open spec fn plugin_rows(list: Seq<(String, String)>) -> Seq<Seq<char>> {
    Seq::new(list.len(), |i: int| plugin_row(list[i]))
}

/// What `/plugins` shows: how many plugins are loaded, then the name and
/// description of each that has a summary.
pub open spec fn plugins_notice(count: nat, summaries: Seq<(String, String)>) -> Seq<char> {
    if count == 0 {
        "No plugins loaded."@
    } else {
        decimal(count) + " plugin(s) loaded · /plugin <name> <prompt>:\n"@ + join(plugin_rows(summaries), "\n"@)
    }
}

fn pad_chars(s: &str, n: usize) -> (r: Vec<char>)
    ensures
        r@ == pad_right(s@, n as nat),
{
    let mut r = chars_of(s);
    if r.len() < n {
        let ghost base = r@;
        let k = n - r.len();
        for i in 0..k
            invariant
                k == n - base.len(),
                r@ == base + Seq::new(i as nat, |j: int| ' '),
        {
            r.push(' ');
            assert(r@ =~= base + Seq::new((i + 1) as nat, |j: int| ' '));
        }
    }
    r
}

/// The `/plugins` listing; `count` is the number of loaded plugins and
/// `summaries` the name and description of those that have one.
pub fn plugins_listing(count: usize, summaries: &Vec<(String, String)>) -> (r: String)
    ensures
        r@ == plugins_notice(count as nat, summaries@),
{
    if count == 0 {
        return "No plugins loaded.".to_owned();
    }
    let mut r = decimal_chars(count as u128);
    extend_str(&mut r, " plugin(s) loaded · /plugin <name> <prompt>:\n");
    let ghost pre = r@;
    for i in 0..summaries.len()
        invariant
            r@ == pre + join(plugin_rows(summaries@).take(i as int), "\n"@),
    {
        let mut row = chars_of("  ");
        let name = pad_chars(summaries[i].0.as_str(), 16);
        extend_chars(&mut row, &name);
        extend_str(&mut row, " ");
        extend_str(&mut row, summaries[i].1.as_str());
        let ghost t = plugin_rows(summaries@).take(i + 1);
        assert(t.drop_last() =~= plugin_rows(summaries@).take(i as int));
        assert(row@ == t.last());
        if i > 0 {
            extend_str(&mut r, "\n");
        }
        extend_chars(&mut r, &row);
        proof {
            if i == 0 {
                assert(join(t, "\n"@) == t[0]);
            }
            assert(r@ =~= pre + join(t, "\n"@));
        }
    }
    assert(plugin_rows(summaries@).take(summaries.len() as int) =~= plugin_rows(summaries@));
    string_of(&r)
}

/// How many of the sessions use the model.
pub open spec fn count_model(list: Seq<SessionSummary>, m: Seq<char>) -> nat
    decreases list.len(),
{
    if list.len() == 0 {
        0
    } else {
        count_model(list.drop_last(), m) + if list.last().model@ == m {
            1nat
        } else {
            0nat
        }
    }
}

/// `r` tallies the sessions by model: each model of the sessions once, with
/// the number of sessions that use it, and no other model.
#[verifier::opaque]
pub open spec fn tallies(list: Seq<SessionSummary>, r: Seq<(String, usize)>) -> bool {
    &&& forall|i: int, j: int| 0 <= i < j < r.len() ==> r[i].0@ != r[j].0@
    &&& forall|i: int| 0 <= i < r.len() ==> #[trigger] r[i].1 == count_model(list, r[i].0@)
    &&& forall|k: int|
        #![trigger list[k]]
        0 <= k < list.len() ==> exists|i: int| #![trigger r[i]] 0 <= i < r.len() && r[i].0@ == list[k].model@
    &&& forall|i: int|
        #![trigger r[i]]
        0 <= i < r.len() ==> exists|k: int| #![trigger list[k]] 0 <= k < list.len() && list[k].model@ == r[i].0@
}

proof fn lemma_count_bound(list: Seq<SessionSummary>, m: Seq<char>)
    ensures
        count_model(list, m) <= list.len(),
    decreases list.len(),
{
    if list.len() > 0 {
        lemma_count_bound(list.drop_last(), m);
    }
}

/// The count of a model after one more session.
proof fn lemma_count_push(pre: Seq<SessionSummary>, x: SessionSummary, mm: Seq<char>)
    ensures
        count_model(pre.push(x), mm) == count_model(pre, mm) + if x.model@ == mm {
            1nat
        } else {
            0nat
        },
{
    assert(pre.push(x).drop_last() =~= pre);
}

/// One more session of a model already tallied: its count goes up by one.
proof fn lemma_tally_bump(pre: Seq<SessionSummary>, x: SessionSummary, r: Seq<(String, usize)>, r2: Seq<(String, usize)>, f: int)
    requires
        tallies(pre, r),
        0 <= f < r.len(),
        r[f].0@ == x.model@,
        r2.len() == r.len(),
        r2[f].0@ == r[f].0@,
        r2[f].1 == r[f].1 + 1,
        forall|j: int| 0 <= j < r.len() && j != f ==> r2[j] == r[j],
    ensures
        tallies(pre.push(x), r2),
{
    reveal(tallies);
    let next = pre.push(x);
    assert forall|i: int| 0 <= i < r2.len() implies #[trigger] r2[i].1 == count_model(next, r2[i].0@) by {
        lemma_count_push(pre, x, r2[i].0@);
        if i != f {
            assert(r[i].0@ != r[f].0@);
        }
    }
    assert forall|i: int, j: int| 0 <= i < j < r2.len() implies r2[i].0@ != r2[j].0@ by {
        assert(r2[i].0@ == r[i].0@ && r2[j].0@ == r[j].0@);
    }
    assert forall|k: int| #![trigger next[k]] 0 <= k < next.len() implies exists|i: int| #![trigger r2[i]] 0 <= i < r2.len() && r2[i].0@ == next[k].model@ by {
        if k < pre.len() {
            assert(next[k] == pre[k]);
            let i = choose|i: int| #![trigger r[i]] 0 <= i < r.len() && r[i].0@ == pre[k].model@;
            assert(r2[i].0@ == r[i].0@);
        } else {
            assert(r2[f].0@ == next[k].model@);
        }
    }
    assert forall|i: int| #![trigger r2[i]] 0 <= i < r2.len() implies exists|k: int| #![trigger next[k]] 0 <= k < next.len() && next[k].model@ == r2[i].0@ by {
        assert(r2[i].0@ == r[i].0@);
        let k = choose|k: int| #![trigger pre[k]] 0 <= k < pre.len() && pre[k].model@ == r[i].0@;
        assert(next[k] == pre[k]);
    }
}

/// One more session of a model not yet tallied: the model joins with one.
proof fn lemma_tally_new(pre: Seq<SessionSummary>, x: SessionSummary, r: Seq<(String, usize)>, e: (String, usize))
    requires
        tallies(pre, r),
        forall|j: int| 0 <= j < r.len() ==> r[j].0@ != x.model@,
        e.0@ == x.model@,
        e.1 == 1,
    ensures
        tallies(pre.push(x), r.push(e)),
{
    reveal(tallies);
    let next = pre.push(x);
    let r2 = r.push(e);
    assert(count_model(pre, x.model@) == 0) by {
        if count_model(pre, x.model@) > 0 {
            lemma_count_positive(pre, x.model@);
            let k = choose|k: int| 0 <= k < pre.len() && pre[k].model@ == x.model@;
            assert(pre[k] == pre[k]);
            let i = choose|i: int| #![trigger r[i]] 0 <= i < r.len() && r[i].0@ == pre[k].model@;
        }
    }
    assert forall|i: int| 0 <= i < r2.len() implies #[trigger] r2[i].1 == count_model(next, r2[i].0@) by {
        lemma_count_push(pre, x, r2[i].0@);
        if i < r.len() {
            assert(r2[i] == r[i]);
        }
    }
    assert forall|i: int, j: int| 0 <= i < j < r2.len() implies r2[i].0@ != r2[j].0@ by {
        assert(r2[i] == r[i]);
        if j < r.len() {
            assert(r2[j] == r[j]);
        }
    }
    assert forall|k: int| #![trigger next[k]] 0 <= k < next.len() implies exists|i: int| #![trigger r2[i]] 0 <= i < r2.len() && r2[i].0@ == next[k].model@ by {
        if k < pre.len() {
            assert(next[k] == pre[k]);
            let i = choose|i: int| #![trigger r[i]] 0 <= i < r.len() && r[i].0@ == pre[k].model@;
            assert(r2[i] == r[i]);
        } else {
            assert(r2[r.len() as int].0@ == next[k].model@);
        }
    }
    assert forall|i: int| #![trigger r2[i]] 0 <= i < r2.len() implies exists|k: int| #![trigger next[k]] 0 <= k < next.len() && next[k].model@ == r2[i].0@ by {
        if i < r.len() {
            assert(r2[i] == r[i]);
            let k = choose|k: int| #![trigger pre[k]] 0 <= k < pre.len() && pre[k].model@ == r[i].0@;
            assert(next[k] == pre[k]);
        } else {
            assert(next[pre.len() as int].model@ == r2[i].0@);
        }
    }
}

/// A tallied count is at most the number of sessions.
proof fn lemma_tally_bound(pre: Seq<SessionSummary>, r: Seq<(String, usize)>, f: int)
    requires
        tallies(pre, r),
        0 <= f < r.len(),
    ensures
        r[f].1 <= pre.len(),
{
    reveal(tallies);
    lemma_count_bound(pre, r[f].0@);
}

/// The sessions a tally counts.
pub open spec fn tally_sum(r: Seq<(String, usize)>) -> nat
    decreases r.len(),
{
    if r.len() == 0 {
        0
    } else {
        tally_sum(r.drop_last()) + r.last().1 as nat
    }
}

proof fn lemma_tally_sum_push(r: Seq<(String, usize)>, e: (String, usize))
    ensures
        tally_sum(r.push(e)) == tally_sum(r) + e.1,
{
    assert(r.push(e).drop_last() =~= r);
}

/// Raising one count by one raises the sum by one.
proof fn lemma_tally_sum_bump(r: Seq<(String, usize)>, r2: Seq<(String, usize)>, f: int)
    requires
        0 <= f < r.len(),
        r2.len() == r.len(),
        r2[f].1 == r[f].1 + 1,
        forall|j: int| 0 <= j < r.len() && j != f ==> r2[j] == r[j],
    ensures
        tally_sum(r2) == tally_sum(r) + 1,
    decreases r.len(),
{
    if f == r.len() - 1 {
        assert(r2.drop_last() =~= r.drop_last());
    } else {
        lemma_tally_sum_bump(r.drop_last(), r2.drop_last(), f);
    }
}

/// Where a model stands in a tally, or the tally's length.
fn find_model(r: &Vec<(String, usize)>, m: &Vec<char>) -> (f: usize)
    ensures
        f <= r.len(),
        f < r.len() ==> r@[f as int].0@ == m@,
        f == r.len() ==> forall|j: int| 0 <= j < r.len() ==> r@[j].0@ != m@,
{
    for i in 0..r.len()
        invariant
            forall|j: int| 0 <= j < i ==> r@[j].0@ != m@,
    {
        let have = chars_of(r[i].0.as_str());
        if eq_chars(&have, m) {
            return i;
        }
    }
    r.len()
}

/// The `stats` breakdown: the sessions counted by model, each model once, in
/// the order it first occurs.
pub fn sessions_by_model(list: &Vec<SessionSummary>) -> (r: Vec<(String, usize)>)
    ensures
        tallies(list@, r@),
        tally_sum(r@) == list@.len(),
{
    let mut r: Vec<(String, usize)> = Vec::new();
    proof {
        reveal(tallies);
    }
    for k in 0..list.len()
        invariant
            tallies(list@.take(k as int), r@),
            tally_sum(r@) == k,
    {
        let ghost pre = list@.take(k as int);
        assert(list@.take(k + 1) =~= pre.push(list@[k as int]));
        let m = chars_of(list[k].model.as_str());
        let found = find_model(&r, &m);
        let ghost old_r = r@;
        if found < r.len() {
            proof {
                lemma_tally_bound(pre, r@, found as int);
            }
            let name = r[found].0.clone();
            let c = r[found].1;
            r.set(found, (name, c + 1));
            proof {
                lemma_tally_bump(pre, list@[k as int], old_r, r@, found as int);
                lemma_tally_sum_bump(old_r, r@, found as int);
            }
        } else {
            let name = list[k].model.clone();
            proof {
                lemma_tally_new(pre, list@[k as int], r@, (name, 1usize));
            }
            r.push((name, 1));
            proof {
                assert(r@ =~= old_r.push(r@.last()));
                lemma_tally_sum_push(old_r, r@.last());
            }
        }
    }
    assert(list@.take(list.len() as int) =~= list@);
    r
}

proof fn lemma_count_positive(list: Seq<SessionSummary>, m: Seq<char>)
    requires
        count_model(list, m) > 0,
    ensures
        exists|k: int| 0 <= k < list.len() && list[k].model@ == m,
    decreases list.len(),
{
    if list.last().model@ != m {
        lemma_count_positive(list.drop_last(), m);
        let k = choose|k: int| 0 <= k < list.len() - 1 && list.drop_last()[k].model@ == m;
        assert(list[k] == list.drop_last()[k]);
    } else {
        assert(list[list.len() - 1].model@ == m);
    }
}

/// The messages of all the sessions.
pub open spec fn messages_total(list: Seq<SessionSummary>) -> nat
    decreases list.len(),
{
    if list.len() == 0 {
        0
    } else {
        messages_total(list.drop_last()) + list.last().message_count as nat
    }
}

/// Law: the total over two lists put together is the sum of their totals.
pub proof fn law_messages_total_concat(a: Seq<SessionSummary>, b: Seq<SessionSummary>)
    ensures
        messages_total(a + b) == messages_total(a) + messages_total(b),
    decreases b.len(),
{
    if b.len() > 0 {
        law_messages_total_concat(a, b.drop_last());
        assert((a + b).drop_last() =~= a + b.drop_last());
    } else {
        assert(a + b =~= a);
    }
}

/// Law: a single session's total is its message count, so every listed
/// session counts in full.
pub proof fn law_messages_total_single(s: SessionSummary)
    ensures
        messages_total(seq![s]) == s.message_count,
{
    assert(seq![s].drop_last() =~= Seq::<SessionSummary>::empty());
    assert(messages_total(Seq::<SessionSummary>::empty()) == 0);
    assert(seq![s].last() == s);
}

/// Law: every listed session's messages are part of the total.
pub proof fn law_each_session_counted(list: Seq<SessionSummary>, i: int)
    requires
        0 <= i < list.len(),
    ensures
        messages_total(list) == messages_total(list.remove(i)) + list[i].message_count,
{
    let a = list.take(i);
    let b = list.skip(i + 1);
    assert(list =~= a + seq![list[i]] + b);
    assert(list.remove(i) =~= a + b);
    law_messages_total_concat(a + seq![list[i]], b);
    law_messages_total_concat(a, seq![list[i]]);
    law_messages_total_concat(a, b);
    law_messages_total_single(list[i]);
}

/// The `stats` message total.
pub fn total_messages(list: &Vec<SessionSummary>) -> (r: u128)
    ensures
        r == messages_total(list@),
{
    let mut t: u128 = 0;
    for k in 0..list.len()
        invariant
            t == messages_total(list@.take(k as int)),
            t <= k * (usize::MAX as int),
            k <= list.len(),
    {
        assert(list@.take(k + 1).drop_last() =~= list@.take(k as int));
        assert(t + list[k as int].message_count <= (k + 1) * (usize::MAX as int)) by (nonlinear_arith)
            requires
                t <= k * (usize::MAX as int),
                list[k as int].message_count <= usize::MAX,
        ;
        assert((k + 1) * (usize::MAX as int) <= usize::MAX as int * usize::MAX as int) by (nonlinear_arith)
            requires
                k + 1 <= usize::MAX,
        ;
        t = t + list[k].message_count as u128;
    }
    assert(list@.take(list.len() as int) =~= list@);
    t
}

} // verus!
