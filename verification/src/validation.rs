//! `lattice validate`: the checks of the agent profiles of a directory, made
//! over what the runtime reports of them (each profile's model resolution,
//! handoff targets and fallback, and each pipeline's dry run).

use crate::commands::strings_view;
use crate::text::{chars_of, decimal, decimal_chars, eq_chars, extend_chars, extend_str, string_of};
use vstd::prelude::*;

verus! {

/// What the runtime reports of one agent profile.
#[derive(Debug)]
pub struct ProfileFacts {
    pub name: String,
    pub model: String,
    /// Why the model does not resolve, if it does not.
    pub model_error: Option<String>,
    /// The agents each handoff rule targets, rule by rule (none for a rule
    /// without a target).
    pub rule_targets: Vec<Vec<String>>,
    /// The agents of the fallback (none without one).
    pub fallback: Vec<String>,
}

/// What a pipeline dry run from one agent reports.
#[derive(Debug)]
pub struct ChainFacts {
    pub agent: String,
    pub circular: bool,
    pub issues: Vec<String>,
}

pub open spec fn registered(reg: Seq<Seq<char>>, n: Seq<char>) -> bool {
    reg.contains(n)
}

/// The lines of one rule's targets that are not registered agents.
pub open spec fn target_lines(rule: nat, targets: Seq<Seq<char>>, reg: Seq<Seq<char>>) -> Seq<Seq<char>>
    decreases targets.len(),
{
    if targets.len() == 0 {
        seq![]
    } else {
        target_lines(rule, targets.drop_last(), reg) + if registered(reg, targets.last()) {
            seq![]
        } else {
            seq!["    rule["@ + decimal(rule) + "]: target '"@ + targets.last() + "' is not a registered agent"@]
        }
    }
}

pub open spec fn rules_lines(rules: Seq<Seq<Seq<char>>>, reg: Seq<Seq<char>>) -> Seq<Seq<char>>
    decreases rules.len(),
{
    if rules.len() == 0 {
        seq![]
    } else {
        rules_lines(rules.drop_last(), reg) + target_lines((rules.len() - 1) as nat, rules.last(), reg)
    }
}

pub open spec fn fallback_lines(fb: Seq<Seq<char>>, reg: Seq<Seq<char>>) -> Seq<Seq<char>>
    decreases fb.len(),
{
    if fb.len() == 0 {
        seq![]
    } else {
        fallback_lines(fb.drop_last(), reg) + if registered(reg, fb.last()) {
            seq![]
        } else {
            seq!["    fallback: '"@ + fb.last() + "' is not a registered agent"@]
        }
    }
}

pub open spec fn rules_view(rules: Seq<Vec<String>>) -> Seq<Seq<Seq<char>>> {
    Seq::new(rules.len(), |i: int| strings_view(rules[i]@))
}

/// The model line of a profile.
pub open spec fn model_line(p: ProfileFacts) -> Seq<char> {
    match p.model_error {
        None => "    model: "@ + p.model@ + " OK"@,
        Some(e) => "    model: "@ + p.model@ + " — WARNING: "@ + e@,
    }
}

/// The lines of one profile: its check, a duplicate name, its model, and
/// the handoff targets and fallback agents that are not registered.
pub open spec fn profile_lines(p: ProfileFacts, dup: bool, reg: Seq<Seq<char>>) -> Seq<Seq<char>> {
    seq!["  [check] "@ + p.name@] + (if dup {
        seq!["    ERROR: duplicate agent name '"@ + p.name@ + "'"@]
    } else {
        seq![]
    }) + seq![model_line(p)] + rules_lines(rules_view(p.rule_targets@), reg) + fallback_lines(
        strings_view(p.fallback@),
        reg,
    )
}

/// The errors among a profile's lines: all but the check and the model.
pub open spec fn profile_errors(p: ProfileFacts, dup: bool, reg: Seq<Seq<char>>) -> nat {
    (profile_lines(p, dup, reg).len() - 2) as nat
}

pub open spec fn names_of(ps: Seq<ProfileFacts>) -> Seq<Seq<char>> {
    Seq::new(ps.len(), |i: int| ps[i].name@)
}

/// The lines of the profiles, in order; a name met before is a duplicate.
pub open spec fn profiles_lines(ps: Seq<ProfileFacts>, reg: Seq<Seq<char>>) -> Seq<Seq<char>>
    decreases ps.len(),
{
    if ps.len() == 0 {
        seq![]
    } else {
        let pre = ps.drop_last();
        profiles_lines(pre, reg) + profile_lines(ps.last(), names_of(pre).contains(ps.last().name@), reg)
    }
}

pub open spec fn profiles_errors(ps: Seq<ProfileFacts>, reg: Seq<Seq<char>>) -> nat
    decreases ps.len(),
{
    if ps.len() == 0 {
        0
    } else {
        let pre = ps.drop_last();
        profiles_errors(pre, reg) + profile_errors(ps.last(), names_of(pre).contains(ps.last().name@), reg)
    }
}

/// Whether a dry-run issue counts as an error: it names an agent not found
/// or unregistered.
pub open spec fn fatal_issue(issue: Seq<char>) -> bool {
    crate::text::contains(issue, "not found"@) || crate::text::contains(issue, "unregistered"@)
}

pub open spec fn issue_lines(issues: Seq<Seq<char>>) -> Seq<Seq<char>>
    decreases issues.len(),
{
    if issues.len() == 0 {
        seq![]
    } else {
        issue_lines(issues.drop_last()) + if fatal_issue(issues.last()) {
            seq!["    ERROR: "@ + issues.last()]
        } else {
            seq![]
        }
    }
}

/// The lines of one dry run: a circular handoff, then the fatal issues.
pub open spec fn chain_lines(c: ChainFacts) -> Seq<Seq<char>> {
    (if c.circular {
        seq!["    ERROR: circular handoff detected starting from '"@ + c.agent@ + "'"@]
    } else {
        seq![]
    }) + issue_lines(strings_view(c.issues@))
}

pub open spec fn chains_lines(cs: Seq<ChainFacts>) -> Seq<Seq<char>>
    decreases cs.len(),
{
    if cs.len() == 0 {
        seq![]
    } else {
        chains_lines(cs.drop_last()) + chain_lines(cs.last())
    }
}

/// What `lattice validate` prints of the profiles and dry runs, and how many
/// errors it found (every line of the dry runs is one).
pub open spec fn validation_view(ps: Seq<ProfileFacts>, reg: Seq<Seq<char>>, cs: Seq<ChainFacts>) -> (Seq<Seq<char>>, nat) {
    (profiles_lines(ps, reg) + chains_lines(cs), profiles_errors(ps, reg) + chains_lines(cs).len())
}

fn push_line(out: &mut Vec<String>, l: Vec<char>)
    ensures
        strings_view(final(out)@) == strings_view(old(out)@).push(l@),
{
    out.push(string_of(&l));
    assert(strings_view(out@) =~= strings_view(old(out)@).push(l@));
}

fn is_registered(reg: &Vec<String>, n: &String) -> (r: bool)
    ensures
        r == registered(strings_view(reg@), n@),
{
    let t = chars_of(n.as_str());
    for i in 0..reg.len()
        invariant
            t@ == n@,
            forall|j: int| 0 <= j < i ==> strings_view(reg@)[j] != n@,
    {
        let c = chars_of(reg[i].as_str());
        if eq_chars(&c, &t) {
            assert(strings_view(reg@)[i as int] == n@);
            return true;
        }
    }
    false
}

fn push_targets(out: &mut Vec<String>, rule: usize, targets: &Vec<String>, reg: &Vec<String>)
    ensures
        strings_view(final(out)@) == strings_view(old(out)@) + target_lines(
            rule as nat,
            strings_view(targets@),
            strings_view(reg@),
        ),
{
    let ghost tv = strings_view(targets@);
    for i in 0..targets.len()
        invariant
            tv == strings_view(targets@),
            strings_view(out@) == strings_view(old(out)@) + target_lines(
                rule as nat,
                tv.take(i as int),
                strings_view(reg@),
            ),
    {
        assert(tv.take(i + 1).drop_last() =~= tv.take(i as int));
        assert(tv.take(i + 1).last() == targets@[i as int]@);
        let ghost before = strings_view(out@);
        if !is_registered(reg, &targets[i]) {
            let mut l = chars_of("    rule[");
            extend_chars(&mut l, &decimal_chars(rule as u128));
            extend_str(&mut l, "]: target '");
            extend_str(&mut l, targets[i].as_str());
            extend_str(&mut l, "' is not a registered agent");
            push_line(out, l);
        }
        assert(strings_view(out@) =~= strings_view(old(out)@) + target_lines(
            rule as nat,
            tv.take(i + 1),
            strings_view(reg@),
        ));
    }
    assert(tv.take(targets.len() as int) =~= tv);
}

fn push_profile(out: &mut Vec<String>, p: &ProfileFacts, dup: bool, reg: &Vec<String>)
    ensures
        strings_view(final(out)@) == strings_view(old(out)@) + profile_lines(*p, dup, strings_view(reg@)),
{
    let ghost rv = strings_view(reg@);
    let ghost o = strings_view(out@);
    let mut l = chars_of("  [check] ");
    extend_str(&mut l, p.name.as_str());
    push_line(out, l);
    if dup {
        let mut d = chars_of("    ERROR: duplicate agent name '");
        extend_str(&mut d, p.name.as_str());
        extend_str(&mut d, "'");
        push_line(out, d);
    }
    let mut m = chars_of("    model: ");
    extend_str(&mut m, p.model.as_str());
    match &p.model_error {
        None => extend_str(&mut m, " OK"),
        Some(e) => {
            extend_str(&mut m, " — WARNING: ");
            extend_str(&mut m, e.as_str());
        },
    }
    push_line(out, m);
    let ghost head = strings_view(out@);
    let ghost rs = rules_view(p.rule_targets@);
    for k in 0..p.rule_targets.len()
        invariant
            rs == rules_view(p.rule_targets@),
            rv == strings_view(reg@),
            strings_view(out@) == head + rules_lines(rs.take(k as int), rv),
    {
        assert(rs.take(k + 1).drop_last() =~= rs.take(k as int));
        assert(rs.take(k + 1).last() == strings_view(p.rule_targets@[k as int]@));
        push_targets(out, k, &p.rule_targets[k], reg);
        assert(strings_view(out@) =~= head + rules_lines(rs.take(k + 1), rv));
    }
    assert(rs.take(p.rule_targets.len() as int) =~= rs);
    let ghost mid = strings_view(out@);
    let ghost fv = strings_view(p.fallback@);
    for k in 0..p.fallback.len()
        invariant
            fv == strings_view(p.fallback@),
            rv == strings_view(reg@),
            strings_view(out@) == mid + fallback_lines(fv.take(k as int), rv),
    {
        assert(fv.take(k + 1).drop_last() =~= fv.take(k as int));
        assert(fv.take(k + 1).last() == p.fallback@[k as int]@);
        if !is_registered(reg, &p.fallback[k]) {
            let mut f = chars_of("    fallback: '");
            extend_str(&mut f, p.fallback[k].as_str());
            extend_str(&mut f, "' is not a registered agent");
            push_line(out, f);
        }
        assert(strings_view(out@) =~= mid + fallback_lines(fv.take(k + 1), rv));
    }
    assert(fv.take(p.fallback.len() as int) =~= fv);
    assert(strings_view(out@) =~= o + profile_lines(*p, dup, rv));
}

fn push_chain(out: &mut Vec<String>, c: &ChainFacts)
    ensures
        strings_view(final(out)@) == strings_view(old(out)@) + chain_lines(*c),
{
    let ghost o = strings_view(out@);
    if c.circular {
        let mut l = chars_of("    ERROR: circular handoff detected starting from '");
        extend_str(&mut l, c.agent.as_str());
        extend_str(&mut l, "'");
        push_line(out, l);
    }
    let ghost head = strings_view(out@);
    let ghost iv = strings_view(c.issues@);
    for k in 0..c.issues.len()
        invariant
            iv == strings_view(c.issues@),
            strings_view(out@) == head + issue_lines(iv.take(k as int)),
    {
        assert(iv.take(k + 1).drop_last() =~= iv.take(k as int));
        assert(iv.take(k + 1).last() == c.issues@[k as int]@);
        let t = chars_of(c.issues[k].as_str());
        if crate::text::contains_str(&t, "not found") || crate::text::contains_str(&t, "unregistered") {
            let mut l = chars_of("    ERROR: ");
            extend_str(&mut l, c.issues[k].as_str());
            push_line(out, l);
        }
        assert(strings_view(out@) =~= head + issue_lines(iv.take(k + 1)));
    }
    assert(iv.take(c.issues.len() as int) =~= iv);
    assert(strings_view(out@) =~= o + chain_lines(*c));
}

fn name_seen(ps: &Vec<ProfileFacts>, k: usize) -> (r: bool)
    requires
        k < ps.len(),
    ensures
        r == names_of(ps@.take(k as int)).contains(ps@[k as int].name@),
{
    let t = chars_of(ps[k].name.as_str());
    let ghost ns = names_of(ps@.take(k as int));
    for j in 0..k
        invariant
            k < ps.len(),
            t@ == ps@[k as int].name@,
            ns == names_of(ps@.take(k as int)),
            forall|i: int| 0 <= i < j ==> ns[i] != t@,
    {
        let c = chars_of(ps[j].name.as_str());
        if eq_chars(&c, &t) {
            assert(ns[j as int] == t@);
            return true;
        }
    }
    false
}

proof fn lemma_views_len(v: Seq<String>)
    ensures
        strings_view(v).len() == v.len(),
{
}

proof fn lemma_profile_lines_len(p: ProfileFacts, dup: bool, reg: Seq<Seq<char>>)
    ensures
        profile_lines(p, dup, reg).len() >= 2,
{
}

/// The lines `lattice validate` prints of the profiles and dry runs, and the
/// number of errors among them (see `validation_view`).
pub fn validation_report(profiles: &Vec<ProfileFacts>, registered_names: &Vec<String>, chains: &Vec<ChainFacts>) -> (r: (
    Vec<String>,
    usize,
))
    ensures
        (strings_view(r.0@), r.1 as nat) == validation_view(profiles@, strings_view(registered_names@), chains@),
{
    let ghost rv = strings_view(registered_names@);
    let mut out: Vec<String> = Vec::new();
    let mut errors: usize = 0;
    for k in 0..profiles.len()
        invariant
            rv == strings_view(registered_names@),
            strings_view(out@) == profiles_lines(profiles@.take(k as int), rv),
            errors as nat == profiles_errors(profiles@.take(k as int), rv),
            errors <= out@.len(),
    {
        let ghost pre = profiles@.take(k as int);
        assert(profiles@.take(k + 1).drop_last() =~= pre);
        let dup = name_seen(profiles, k);
        let before = out.len();
        proof {
            lemma_views_len(out@);
        }
        push_profile(&mut out, &profiles[k], dup, registered_names);
        proof {
            lemma_profile_lines_len(profiles@[k as int], dup, rv);
            lemma_views_len(out@);
        }
        let added = out.len() - before;
        errors = errors + (added - 2);
        assert(strings_view(out@) =~= profiles_lines(profiles@.take(k + 1), rv));
    }
    assert(profiles@.take(profiles.len() as int) =~= profiles@);
    let ghost plines = strings_view(out@);
    proof {
        lemma_views_len(out@);
    }
    for k in 0..chains.len()
        invariant
            strings_view(out@) == plines + chains_lines(chains@.take(k as int)),
            errors as nat == profiles_errors(profiles@, rv) + chains_lines(chains@.take(k as int)).len(),
            plines.len() + chains_lines(chains@.take(k as int)).len() == out@.len(),
            profiles_errors(profiles@, rv) <= plines.len(),
    {
        assert(chains@.take(k + 1).drop_last() =~= chains@.take(k as int));
        let before = out.len();
        proof {
            lemma_views_len(out@);
        }
        push_chain(&mut out, &chains[k]);
        proof {
            lemma_views_len(out@);
        }
        let added = out.len() - before;
        assert(chains_lines(chains@.take(k + 1)) =~= chains_lines(chains@.take(k as int)) + chain_lines(chains@[k as int]));
        assert(errors + added <= out.len());
        errors = errors + added;
    }
    assert(chains@.take(chains.len() as int) =~= chains@);
    (out, errors)
}

} // verus!
