//! The coding agent's side of the client: its system prompt and repository
//! summary, the providers reachable with the configured credentials, and the
//! renderers that turn the agent's event stream into terminal output.

use crate::commands::strings_view;
use crate::text::{
    chars_of, eq_str, extend_chars, extend_str, join, join_chars, lex_less, lex_lt,
    lemma_lex_lt_transitive, slice_chars, string_of, vv,
};
use vstd::prelude::*;

verus! {

// ---------------------------------------------------------------------------
// System prompt and repository context.
// ---------------------------------------------------------------------------

pub open spec fn coding_prompt_text(workdir: Seq<char>, context: Seq<char>) -> Seq<char> {
    "You are LATTICE Swarm, a repo-aware coding agent.\nWork like a senior engineer inside the user's checkout.\nPrioritize correct, tested, minimal changes.\nUse read_file, grep, list_directory, patch, write_file and bash tools to inspect and edit files.\nPrefer targeted patches over rewriting whole files.\nNever claim a change is verified unless you ran the relevant command.\nSurface blockers directly and keep output concise.\n\nWorking directory: "@
        + workdir + "\n\nRepository context:\n"@ + context
}

/// The coding agent's system prompt for a working directory (as displayed)
/// and its repository context.
pub fn coding_system_prompt(workdir: &str, context: &str) -> (r: String)
    ensures
        r@ == coding_prompt_text(workdir@, context@),
{
    let mut v = chars_of(
        "You are LATTICE Swarm, a repo-aware coding agent.\nWork like a senior engineer inside the user's checkout.\nPrioritize correct, tested, minimal changes.\nUse read_file, grep, list_directory, patch, write_file and bash tools to inspect and edit files.\nPrefer targeted patches over rewriting whole files.\nNever claim a change is verified unless you ran the relevant command.\nSurface blockers directly and keep output concise.\n\nWorking directory: ",
    );
    extend_str(&mut v, workdir);
    extend_str(&mut v, "\n\nRepository context:\n");
    extend_str(&mut v, context);
    string_of(&v)
}

/// Top-level entries the repository summary leaves out.
pub open spec fn hidden_entry(name: Seq<char>) -> bool {
    name == ".git"@ || name == "target"@ || name == "node_modules"@
}

pub open spec fn shown_entries(names: Seq<Seq<char>>) -> Seq<Seq<char>>
    decreases names.len(),
{
    if names.len() == 0 {
        seq![]
    } else if hidden_entry(names.last()) {
        shown_entries(names.drop_last())
    } else {
        shown_entries(names.drop_last()).push(names.last())
    }
}

pub open spec fn sorted_names(s: Seq<Seq<char>>) -> bool {
    forall|i: int, j: int| 0 <= i < j < s.len() ==> !lex_lt(#[trigger] s[j], #[trigger] s[i])
}

pub open spec fn entry_lines(names: Seq<Seq<char>>) -> Seq<Seq<char>> {
    Seq::new(names.len(), |i: int| "- "@ + names[i])
}

/// The summary of entries already sorted: at most the first forty, one
/// `- name` line each, or a note when there are none.
pub open spec fn context_text(sorted: Seq<Seq<char>>) -> Seq<char> {
    if sorted.len() == 0 {
        "- no readable top-level entries"@
    } else if sorted.len() <= 40 {
        join(entry_lines(sorted), "\n"@)
    } else {
        join(entry_lines(sorted.take(40)), "\n"@)
    }
}

/// Sorts names ascending (the order of `String`'s `Ord`); the sort is stable.
pub fn sort_names(v: Vec<Vec<char>>) -> (r: Vec<Vec<char>>)
    ensures
        vv(r@).to_multiset() == vv(v@).to_multiset(),
        sorted_names(vv(r@)),
{
    broadcast use vstd::seq_lib::group_to_multiset_ensures;

    let mut rest = v;
    let mut out: Vec<Vec<char>> = Vec::new();
    let ghost orig = vv(rest@);
    assert(vv(out@).to_multiset() =~= vstd::multiset::Multiset::empty());
    while rest.len() > 0
        invariant
            vv(out@).to_multiset().add(vv(rest@).to_multiset()) == orig.to_multiset(),
            sorted_names(vv(out@)),
        decreases rest.len(),
    {
        let ghost rest0 = vv(rest@);
        let x = rest.remove(0);
        proof {
            vstd::seq_lib::to_multiset_remove(rest0, 0);
            assert(rest0.remove(0) =~= vv(rest@));
            vstd::seq_lib::to_multiset_contains(rest0, x@);
            assert(rest0[0] == x@);
            assert(rest0.contains(x@));
        }
        let mut p: usize = 0;
        while p < out.len() && !lex_less(&x, &out[p])
            invariant
                p <= out.len(),
                forall|q: int| 0 <= q < p ==> !lex_lt(x@, #[trigger] vv(out@)[q]),
            decreases out.len() - p,
        {
            p += 1;
        }
        let ghost before = vv(out@);
        proof {
            assert forall|q: int| p <= q < before.len() implies !lex_lt(
                #[trigger] before[q],
                x@,
            ) by {
                if lex_lt(before[q], x@) {
                    if q > p {
                        assert(!lex_lt(before[q], before[p as int]));
                    }
                    lemma_lex_lt_transitive(before[q], x@, before[p as int]);
                    crate::text::lemma_lex_lt_irreflexive(before[p as int]);
                }
            }
        }
        out.insert(p, x);
        proof {
            assert(vv(out@) =~= before.insert(p as int, x@));
            vstd::seq_lib::to_multiset_insert(before, p as int, x@);
            assert(vv(out@).to_multiset().add(vv(rest@).to_multiset()) =~= orig.to_multiset());
            assert forall|i: int, j: int| 0 <= i < j < vv(out@).len() implies !lex_lt(
                #[trigger] vv(out@)[j],
                #[trigger] vv(out@)[i],
            ) by {
                if i < p && j > p {
                    assert(vv(out@)[i] == before[i]);
                    assert(vv(out@)[j] == before[j - 1]);
                } else if i < p && j < p {
                    assert(vv(out@)[i] == before[i]);
                    assert(vv(out@)[j] == before[j]);
                } else if i > p {
                    assert(vv(out@)[i] == before[i - 1]);
                    assert(vv(out@)[j] == before[j - 1]);
                }
            }
        }
    }
    out
}

fn render_context(sorted: &Vec<Vec<char>>) -> (r: String)
    ensures
        r@ == context_text(vv(sorted@)),
{
    if sorted.len() == 0 {
        return "- no readable top-level entries".to_owned();
    }
    let n = if sorted.len() <= 40 {
        sorted.len()
    } else {
        40
    };
    let mut lines: Vec<Vec<char>> = Vec::new();
    for i in 0..n
        invariant
            n <= sorted.len(),
            lines@.len() == i,
            vv(lines@) == entry_lines(vv(sorted@).take(i as int)),
    {
        let mut l = chars_of("- ");
        extend_chars(&mut l, &sorted[i]);
        let ghost prev = vv(lines@);
        lines.push(l);
        proof {
            let t = vv(sorted@).take(i + 1);
            assert(vv(lines@).len() == t.len());
            assert forall|j: int| 0 <= j < t.len() implies #[trigger] vv(lines@)[j] == entry_lines(t)[j] by {
                if j < i {
                    assert(vv(lines@)[j] == prev[j]);
                    assert(prev[j] == entry_lines(vv(sorted@).take(i as int))[j]);
                }
            }
            assert(vv(lines@) =~= entry_lines(t));
        }
    }
    let sep = chars_of("\n");
    let text = join_chars(&lines, &sep);
    proof {
        if sorted.len() <= 40 {
            assert(vv(sorted@).take(n as int) =~= vv(sorted@));
        }
    }
    string_of(&text)
}

/// The repository context for the system prompt, from the names of the
/// working directory's top-level entries: `.git`, `target` and
/// `node_modules` left out, the rest sorted, at most forty listed.
pub fn repo_context(names: Vec<String>) -> (r: String)
    ensures
        exists|sorted: Seq<Seq<char>>|
            sorted.to_multiset() == shown_entries(strings_view(names@)).to_multiset()
                && sorted_names(sorted) && r@ == context_text(sorted),
{
    let mut kept: Vec<Vec<char>> = Vec::new();
    for i in 0..names.len()
        invariant
            vv(kept@) == shown_entries(strings_view(names@).take(i as int)),
    {
        let ghost t = strings_view(names@).take(i + 1);
        assert(t.drop_last() =~= strings_view(names@).take(i as int));
        let n = chars_of(names[i].as_str());
        if eq_str(&n, ".git") || eq_str(&n, "target") || eq_str(&n, "node_modules") {
        } else {
            kept.push(n);
            assert(vv(kept@) =~= shown_entries(t));
        }
    }
    assert(strings_view(names@).take(names.len() as int) =~= strings_view(names@));
    let sorted = sort_names(kept);
    render_context(&sorted)
}

// ---------------------------------------------------------------------------
// Providers.
// ---------------------------------------------------------------------------

/// Index of the first `/` in a model id.
pub open spec fn first_slash(s: Seq<char>) -> Option<int>
    decreases s.len(),
{
    if s.len() == 0 {
        None
    } else if s[0] == '/' {
        Some(0)
    } else {
        match first_slash(s.drop_first()) {
            Some(k) => Some(k + 1),
            None => None,
        }
    }
}

/// The providers of the given `provider/model` ids, each once, in the order
/// of first appearance; ids without a `/` name none.
pub open spec fn providers_of(models: Seq<Seq<char>>) -> Seq<Seq<char>>
    decreases models.len(),
{
    if models.len() == 0 {
        seq![]
    } else {
        let seen = providers_of(models.drop_last());
        match first_slash(models.last()) {
            Some(k) => {
                let p = models.last().take(k);
                if seen.contains(p) {
                    seen
                } else {
                    seen.push(p)
                }
            },
            None => seen,
        }
    }
}

pub proof fn lemma_first_slash(s: Seq<char>, i: int)
    requires
        0 <= i <= s.len(),
        forall|j: int| 0 <= j < i ==> s[j] != '/',
    ensures
        i < s.len() && s[i] == '/' ==> first_slash(s) == Some(i),
        i == s.len() ==> first_slash(s) is None,
    decreases i,
{
    if i > 0 {
        lemma_first_slash(s.drop_first(), i - 1);
    }
}

fn find_slash(s: &Vec<char>) -> (r: Option<usize>)
    ensures
        match r {
            Some(k) => k < s@.len() && s@[k as int] == '/' && first_slash(s@) == Some(k as int),
            None => first_slash(s@) is None,
        },
{
    let mut i: usize = 0;
    while i < s.len()
        invariant
            i <= s.len(),
            forall|j: int| 0 <= j < i ==> s@[j] != '/',
        decreases s.len() - i,
    {
        if s[i] == '/' {
            proof {
                lemma_first_slash(s@, i as int);
            }
            return Some(i);
        }
        i += 1;
    }
    proof {
        lemma_first_slash(s@, i as int);
    }
    None
}

fn contains_name(v: &Vec<Vec<char>>, x: &Vec<char>) -> (r: bool)
    ensures
        r == vv(v@).contains(x@),
{
    for i in 0..v.len()
        invariant
            forall|j: int| 0 <= j < i ==> vv(v@)[j] != x@,
    {
        if crate::text::eq_chars(&v[i], x) {
            assert(vv(v@)[i as int] == x@);
            return true;
        }
    }
    false
}

/// The providers that the authenticated models belong to (each model id is
/// `provider/model`), without repeats, in first-seen order.
pub fn authenticated_providers(models: &Vec<String>) -> (r: Vec<String>)
    ensures
        strings_view(r@) == providers_of(strings_view(models@)),
{
    let mut seen: Vec<Vec<char>> = Vec::new();
    let mut out: Vec<String> = Vec::new();
    for i in 0..models.len()
        invariant
            vv(seen@) == providers_of(strings_view(models@).take(i as int)),
            strings_view(out@) == vv(seen@),
    {
        let ghost t = strings_view(models@).take(i + 1);
        assert(t.drop_last() =~= strings_view(models@).take(i as int));
        let m = chars_of(models[i].as_str());
        match find_slash(&m) {
            Some(k) => {
                let p = slice_chars(&m, 0, k);
                if !contains_name(&seen, &p) {
                    out.push(string_of(&p));
                    seen.push(p);
                    assert(vv(seen@) =~= providers_of(t));
                    assert(strings_view(out@) =~= vv(seen@));
                }
            },
            None => {},
        }
    }
    assert(strings_view(models@).take(models.len() as int) =~= strings_view(models@));
    out
}

} // verus!
