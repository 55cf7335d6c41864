//! The file a tool call edits, and the diff it made: which argument names
//! the file, and the unified diff of its content before and after.

use crate::chat::{FileDiffDisplay, FileSnapshot};
use crate::layout::{args_view, field_of, json_args, parse_tool_args, ArgValue, ArgValueView, ArgsView, ToolArgs};
use crate::session::opt_view;
use crate::text::{chars_of, eq_str, extend_str, string_of, trim, trim_chars};
use vstd::prelude::*;

verus! {

// ---------------------------------------------------------------------------
// The file a tool call edits.
// ---------------------------------------------------------------------------

/// The argument that names the file: `path` for `write_file`; `file_path`
/// (else `path`) for `patch`; none for other tools.
pub open spec fn path_field(name: Seq<char>, a: ArgsView) -> Option<ArgValueView> {
    if name == "write_file"@ {
        field_of(a.0, "path"@)
    } else if name == "patch"@ {
        match field_of(a.0, "file_path"@) {
            Some(v) => Some(v),
            None => field_of(a.0, "path"@),
        }
    } else {
        None
    }
}

/// The trimmed path a file-editing tool call names; none when the arguments
/// are not JSON, the field is missing or not a string, or the path is
/// blank.
pub open spec fn editable_path(name: Seq<char>, raw: Seq<char>) -> Option<Seq<char>> {
    match json_args(trim(raw)) {
        None => None,
        Some(a) => match path_field(name, a) {
            Some(ArgValueView::Text(s)) => if trim(s).len() > 0 {
                Some(trim(s))
            } else {
                None
            },
            _ => None,
        },
    }
}

fn field_index(a: &ToolArgs, key: &str) -> (r: Option<usize>)
    ensures
        match r {
            Some(i) => i < a.fields@.len() && field_of(args_view(*a).0, key@) == Some(
                crate::layout::arg_value_view(a.fields@[i as int].1),
            ),
            None => field_of(args_view(*a).0, key@) is None,
        },
{
    let k = chars_of(key);
    let ghost fs = args_view(*a).0;
    let mut i: usize = 0;
    assert(fs.skip(0) =~= fs);
    while i < a.fields.len()
        invariant
            i <= a.fields@.len(),
            k@ == key@,
            fs == args_view(*a).0,
            field_of(fs, key@) == field_of(fs.skip(i as int), key@),
        decreases a.fields.len() - i,
    {
        assert(fs.skip(i as int)[0] == fs[i as int]);
        assert(fs.skip(i as int).drop_first() =~= fs.skip(i + 1));
        if eq_str(&k, a.fields[i].0.as_str()) {
            return Some(i);
        }
        i += 1;
    }
    assert(fs.skip(i as int) =~= Seq::<(Seq<char>, ArgValueView)>::empty());
    None
}

pub fn editable_file_path(name: &str, arguments: &str) -> (r: Option<String>)
    ensures
        opt_view(r) == editable_path(name@, arguments@),
{
    let args = match parse_tool_args(arguments) {
        Some(a) => a,
        None => return None,
    };
    let n = chars_of(name);
    proof {
        reveal_strlit("write_file");
        reveal_strlit("patch");
    }
    let idx = if eq_str(&n, "write_file") {
        field_index(&args, "path")
    } else if eq_str(&n, "patch") {
        match field_index(&args, "file_path") {
            Some(i) => Some(i),
            None => field_index(&args, "path"),
        }
    } else {
        None
    };
    match idx {
        None => None,
        Some(i) => match &args.fields[i].1 {
            ArgValue::Text(s) => {
                let t = trim_chars(&chars_of(s.as_str()));
                if t.len() > 0 {
                    Some(string_of(&t))
                } else {
                    None
                }
            },
            _ => None,
        },
    }
}

/// A tool's path relative to the working directory: leading slashes
/// dropped.
pub open spec fn relative_path(path: Seq<char>) -> Seq<char>
    decreases path.len(),
{
    if path.len() > 0 && path[0] == '/' {
        relative_path(path.drop_first())
    } else {
        path
    }
}

pub fn relative_tool_path(path: &str) -> (r: String)
    ensures
        r@ == relative_path(path@),
{
    let cs = chars_of(path);
    let mut i: usize = 0;
    assert(cs@.skip(0) =~= cs@);
    while i < cs.len() && cs[i] == '/'
        invariant
            i <= cs.len(),
            cs@ == path@,
            relative_path(path@) == relative_path(cs@.skip(i as int)),
        decreases cs.len() - i,
    {
        assert(cs@.skip(i as int).drop_first() =~= cs@.skip(i + 1));
        i += 1;
    }
    let rest = crate::text::slice_chars(&cs, i, cs.len());
    assert(rest@ =~= cs@.skip(i as int));
    string_of(&rest)
}

/// What reading a file for a diff found.
pub enum DiffRead {
    Content(String),
    Missing,
    Unavailable,
}

/// The state of a file before a tool call edits it: its text, or none for a
/// file that does not exist yet; no snapshot where writing is refused or the
/// file cannot be read.
pub fn snapshot_of(path: String, write_allowed: bool, read: DiffRead) -> (r: Option<FileSnapshot>)
    ensures
        write_allowed && read is Content ==> (r matches Some(s) && s.path == path && opt_view(s.content)
            == Some(read->Content_0@)),
        write_allowed && read is Missing ==> (r matches Some(s) && s.path == path && s.content is None),
        !write_allowed || read is Unavailable ==> r is None,
{
    if !write_allowed {
        return None;
    }
    match read {
        DiffRead::Content(c) => Some(FileSnapshot { path, content: Some(c) }),
        DiffRead::Missing => Some(FileSnapshot { path, content: None }),
        DiffRead::Unavailable => None,
    }
}

// ---------------------------------------------------------------------------
// The diff.
// ---------------------------------------------------------------------------

/// The unified diff similar writes of two texts compared line by line, with
/// the two labels in its header and three lines of context.
pub uninterp spec fn similar_unified(old_label: Seq<char>, new_label: Seq<char>, old: Seq<char>, new: Seq<char>) -> Seq<char>;

/// similar: `TextDiff::from_lines(old, new).unified_diff()` with
/// `header(old_label, new_label)` and `context_radius(3)`, written out with
/// `to_string`.
#[verifier::external_body]
fn unified_text(old_label: &str, new_label: &str, old: &str, new: &str) -> (r: String)
    ensures
        r@ == similar_unified(old_label@, new_label@, old@, new@),
{
    similar::TextDiff::from_lines(old, new).unified_diff().header(old_label, new_label).context_radius(3).to_string()
}

/// A text without its trailing line breaks.
pub open spec fn without_trailing_newlines(s: Seq<char>) -> Seq<char>
    decreases s.len(),
{
    if s.len() > 0 && s.last() == '\n' {
        without_trailing_newlines(s.drop_last())
    } else {
        s
    }
}

/// The diff of two texts: none when they are equal or the diff is blank.
pub open spec fn diff_of(old_label: Seq<char>, new_label: Seq<char>, old: Seq<char>, new: Seq<char>) -> Option<Seq<char>> {
    if old == new {
        None
    } else {
        let t = without_trailing_newlines(similar_unified(old_label, new_label, old, new));
        if trim(t).len() > 0 {
            Some(t)
        } else {
            None
        }
    }
}

pub fn unified_diff(old_label: &str, new_label: &str, old_content: &str, new_content: &str) -> (r: Option<String>)
    ensures
        opt_view(r) == diff_of(old_label@, new_label@, old_content@, new_content@),
{
    let o = chars_of(old_content);
    if eq_str(&o, new_content) {
        return None;
    }
    let text = unified_text(old_label, new_label, old_content, new_content);
    let mut t = chars_of(text.as_str());
    while t.len() > 0 && t[t.len() - 1] == '\n'
        invariant
            without_trailing_newlines(t@) == without_trailing_newlines(text@),
        decreases t.len(),
    {
        t.pop();
    }
    if trim_chars(&t).len() > 0 {
        Some(string_of(&t))
    } else {
        None
    }
}

/// The labels of a file's diff: `a/<path>` for a file that existed, else
/// `/dev/null`; `b/<path>` after.
pub open spec fn old_label_of(s: FileSnapshot) -> Seq<char> {
    match s.content {
        Some(_) => "a/"@ + s.path@,
        None => "/dev/null"@,
    }
}

/// The diff a tool call made to a file, from its snapshot and the text read
/// after the call (none where the file could not be read): none when
/// nothing changed.
pub open spec fn file_diff_of(s: FileSnapshot, after: Option<Seq<char>>) -> Option<(Seq<char>, Seq<char>)> {
    match after {
        None => None,
        Some(new) => match diff_of(
            old_label_of(s),
            "b/"@ + s.path@,
            match s.content {
                Some(c) => c@,
                None => seq![],
            },
            new,
        ) {
            Some(d) => Some((s.path@, d)),
            None => None,
        },
    }
}

pub fn completed_file_diff(snapshot: &FileSnapshot, after: Option<String>) -> (r: Option<FileDiffDisplay>)
    ensures
        match r {
            Some(d) => file_diff_of(*snapshot, opt_view(after)) == Some((d.path@, d.text@)),
            None => file_diff_of(*snapshot, opt_view(after)) is None,
        },
{
    let new_content = match after {
        Some(c) => c,
        None => return None,
    };
    let mut old_label = chars_of("/dev/null");
    let empty = String::new();
    let old_content: &str = match &snapshot.content {
        Some(c) => {
            old_label = chars_of("a/");
            extend_str(&mut old_label, snapshot.path.as_str());
            c.as_str()
        },
        None => empty.as_str(),
    };
    proof {
        reveal_strlit("");
        assert(""@ =~= Seq::<char>::empty());
    }
    let mut new_label = chars_of("b/");
    extend_str(&mut new_label, snapshot.path.as_str());
    let ol = string_of(&old_label);
    let nl = string_of(&new_label);
    match unified_diff(ol.as_str(), nl.as_str(), old_content, new_content.as_str()) {
        Some(d) => Some(FileDiffDisplay { path: snapshot.path.clone(), text: d }),
        None => None,
    }
}

} // verus!
