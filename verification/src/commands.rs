//! Decisions behind the command-line subcommands: where agent profiles live
//! and which places are refused, how `config set` types a value, what
//! `config get` shows, and where a run's prompt comes from.

use crate::config::Config;
use crate::session::{join_path, path_join};
use crate::text::{
    chars_of, decimal, decimal_chars, eq_str, extend_chars, extend_str,
    parse_unsigned, parse_unsigned_chars, split_char, split_on, starts_with, starts_with_str,
    string_of, trim, trim_chars, vv, is_ws, lemma_trim_shape,
};
use vstd::prelude::*;

verus! {

/// `lattice config ...`
#[derive(Debug)]
pub enum ConfigAction {
    Init,
    Get { key: String },
    SetKey { key: String, value: String },
    Hash { path: String },
}

/// `lattice sessions ...`
#[derive(Debug)]
pub enum SessionAction {
    List,
    Show { id: String },
    Rm { id: String },
}

// ---------------------------------------------------------------------------
// Agent directories.
// ---------------------------------------------------------------------------

/// The system locations an agents directory may not lie under, in the order
/// they are tested.
pub open spec fn system_prefixes() -> Seq<Seq<char>> {
    seq!["/etc"@, "/usr"@, "/var"@, "/sys"@, "/proc"@, "/dev"@, "/boot"@, "/root"@]
}

/// The first of `ps` that `s` starts with.
pub open spec fn first_prefix(s: Seq<char>, ps: Seq<Seq<char>>) -> Option<Seq<char>>
    decreases ps.len(),
{
    if ps.len() == 0 {
        None
    } else if starts_with(s, ps[0]) {
        Some(ps[0])
    } else {
        first_prefix(s, ps.drop_first())
    }
}

pub open spec fn system_path_error(path: Seq<char>, prefix: Seq<char>) -> Seq<char> {
    "Agents directory '"@ + path + "' is inside a system path ("@ + prefix
        + "). Set LATTICE_AGENTS_DIR to a safe location (e.g., under $HOME or your project)."@
}

pub open spec fn tmp_path_error(path: Seq<char>) -> Seq<char> {
    "Agents directory '"@ + path
        + "' is inside /tmp which is world-writable and unsafe. Set LATTICE_AGENTS_DIR to a safe location."@
}

fn system_prefix_list() -> (r: Vec<Vec<char>>)
    ensures
        vv(r@) == system_prefixes(),
{
    let mut r: Vec<Vec<char>> = Vec::new();
    r.push(chars_of("/etc"));
    r.push(chars_of("/usr"));
    r.push(chars_of("/var"));
    r.push(chars_of("/sys"));
    r.push(chars_of("/proc"));
    r.push(chars_of("/dev"));
    r.push(chars_of("/boot"));
    r.push(chars_of("/root"));
    assert(vv(r@) =~= system_prefixes());
    r
}

/// Refuses an agents directory whose canonical form lies in a system location
/// or under `/tmp`. `path` is the directory as given (shown in the message),
/// `canonical` its canonical form, or the path itself when it has none.
pub fn validate_agents_dir(path: &str, canonical: &str) -> (r: Result<(), String>)
    ensures
        match first_prefix(canonical@, system_prefixes()) {
            Some(prefix) => r matches Err(e) && e@ == system_path_error(path@, prefix),
            None => if starts_with(canonical@, "/tmp"@) {
                r matches Err(e) && e@ == tmp_path_error(path@)
            } else {
                r is Ok
            },
        },
{
    let c = chars_of(canonical);
    let prefixes = system_prefix_list();
    let mut i: usize = 0;
    assert(system_prefixes().skip(0) =~= system_prefixes());
    while i < prefixes.len()
        invariant
            i <= prefixes.len(),
            vv(prefixes@) == system_prefixes(),
            c@ == canonical@,
            first_prefix(canonical@, system_prefixes()) == first_prefix(
                canonical@,
                system_prefixes().skip(i as int),
            ),
        decreases prefixes.len() - i,
    {
        assert(system_prefixes().skip(i as int)[0] == vv(prefixes@)[i as int]);
        if crate::text::starts_with_chars(&c, &prefixes[i]) {
            let mut e = chars_of("Agents directory '");
            extend_str(&mut e, path);
            extend_str(&mut e, "' is inside a system path (");
            extend_chars(&mut e, &prefixes[i]);
            extend_str(
                &mut e,
                "). Set LATTICE_AGENTS_DIR to a safe location (e.g., under $HOME or your project).",
            );
            return Err(string_of(&e));
        }
        assert(system_prefixes().skip(i as int).drop_first() =~= system_prefixes().skip(i + 1));
        i += 1;
    }
    if starts_with_str(&c, "/tmp") {
        let mut e = chars_of("Agents directory '");
        extend_str(&mut e, path);
        extend_str(
            &mut e,
            "' is inside /tmp which is world-writable and unsafe. Set LATTICE_AGENTS_DIR to a safe location.",
        );
        return Err(string_of(&e));
    }
    Ok(())
}

/// Where agent profiles are looked for: the explicit directory, else
/// `LATTICE_AGENTS_DIR`, else `.lattice/agents` under `HOME`, else
/// `.lattice/agents`.
pub fn agents_dir_for(
    override_path: Option<String>,
    env_dir: Option<String>,
    home: Option<String>,
) -> (r: String)
    ensures
        r@ == match override_path {
            Some(p) => p@,
            None => match env_dir {
                Some(d) => d@,
                None => match home {
                    Some(h) => path_join(path_join(h@, ".lattice"@), "agents"@),
                    None => ".lattice/agents"@,
                },
            },
        },
{
    match override_path {
        Some(p) => p,
        None => match env_dir {
            Some(d) => d,
            None => match home {
                Some(h) => {
                    let l = join_path(h.as_str(), ".lattice");
                    join_path(l.as_str(), "agents")
                },
                None => ".lattice/agents".to_owned(),
            },
        },
    }
}

// ---------------------------------------------------------------------------
// `config set`: typing a value by its key.
// ---------------------------------------------------------------------------

/// A configuration value as `config set` writes it.
#[derive(Debug)]
pub enum ConfigValue {
    Bool(bool),
    Integer(i64),
    List(Vec<String>),
    Text(String),
}

pub open spec fn is_bool_key(key: Seq<char>) -> bool {
    key == "core.stream"@ || key == "core.save_sessions"@ || key == "ui.show_reasoning"@ || key
        == "security.hook_chain"@ || key == "security.landlock"@ || key == "security.audit"@
}

pub open spec fn is_size_key(key: Seq<char>) -> bool {
    key == "security.max_read_size"@ || key == "security.max_write_size"@ || key
        == "security.max_http_response_size"@
}

pub open spec fn is_list_key(key: Seq<char>) -> bool {
    key == "security.read_allowlist"@ || key == "security.write_allowlist"@ || key
        == "security.command_allowlist"@
}

/// `bool::from_str`.
pub open spec fn parse_bool(s: Seq<char>) -> Option<bool> {
    if s == "true"@ {
        Some(true)
    } else if s == "false"@ {
        Some(false)
    } else {
        None
    }
}

/// The non-empty trimmed pieces of a comma-separated list.
pub open spec fn list_items(pieces: Seq<Seq<char>>) -> Seq<Seq<char>>
    decreases pieces.len(),
{
    if pieces.len() == 0 {
        seq![]
    } else {
        let rest = list_items(pieces.drop_last());
        let t = trim(pieces.last());
        if t.len() > 0 {
            rest.push(t)
        } else {
            rest
        }
    }
}

pub open spec fn bool_error(key: Seq<char>, value: Seq<char>) -> Seq<char> {
    key + " expects a boolean value (true or false), got '"@ + value + "'"@
}

pub open spec fn integer_error(key: Seq<char>, value: Seq<char>) -> Seq<char> {
    key + " expects an integer value, got '"@ + value + "'"@
}

pub open spec fn strings_view(v: Seq<String>) -> Seq<Seq<char>> {
    v.map_values(|s: String| s@)
}

/// Law: each item a list value stores is one of its comma-separated pieces
/// with the surrounding whitespace trimmed off: it is not empty, and it
/// neither begins nor ends with whitespace.
pub proof fn law_list_items_trimmed(pieces: Seq<Seq<char>>)
    ensures
        forall|i: int|
            0 <= i < list_items(pieces).len() ==> (#[trigger] list_items(pieces)[i]).len() > 0
                && !is_ws(list_items(pieces)[i][0]) && !is_ws(list_items(pieces)[i].last())
                && exists|j: int| 0 <= j < pieces.len() && list_items(pieces)[i] == trim(pieces[j]),
    decreases pieces.len(),
{
    if pieces.len() > 0 {
        let init = pieces.drop_last();
        law_list_items_trimmed(init);
        lemma_trim_shape(pieces.last());
        let items = list_items(pieces);
        let rest = list_items(init);
        assert forall|i: int| 0 <= i < items.len() implies (#[trigger] items[i]).len() > 0
            && !is_ws(items[i][0]) && !is_ws(items[i].last())
            && exists|j: int| 0 <= j < pieces.len() && items[i] == trim(pieces[j]) by {
            if i < rest.len() {
                assert(items[i] == rest[i]);
                let j = choose|j: int| 0 <= j < init.len() && rest[i] == trim(init[j]);
                assert(init[j] == pieces[j]);
            } else {
                assert(items[i] == trim(pieces.last()));
                assert(pieces.last() == pieces[pieces.len() - 1]);
            }
        }
    }
}

/// Law: no non-blank piece is lost: the trimmed text of every piece that is
/// not all whitespace is among the stored items, and there are no more items
/// than pieces.
pub proof fn law_list_items_complete(pieces: Seq<Seq<char>>)
    ensures
        list_items(pieces).len() <= pieces.len(),
        forall|j: int|
            0 <= j < pieces.len() && trim(#[trigger] pieces[j]).len() > 0 ==> list_items(pieces).contains(
                trim(pieces[j]),
            ),
    decreases pieces.len(),
{
    if pieces.len() > 0 {
        let init = pieces.drop_last();
        law_list_items_complete(init);
        let items = list_items(pieces);
        let rest = list_items(init);
        assert forall|j: int|
            0 <= j < pieces.len() && trim(#[trigger] pieces[j]).len() > 0 implies items.contains(
                trim(pieces[j]),
            ) by {
            if j < init.len() {
                assert(init[j] == pieces[j]);
                let i = choose|i: int| 0 <= i < rest.len() && rest[i] == trim(init[j]);
                assert(items[i] == rest[i]);
            } else {
                assert(pieces[j] == pieces.last());
                assert(items[items.len() - 1] == trim(pieces.last()));
            }
        }
    }
}

/// What `config set <key> <value>` stores: booleans and integers for the keys
/// that hold them, lists for the allowlists, text for every other key.
pub open spec fn typed_value(key: Seq<char>, value: Seq<char>, v: ConfigValue) -> bool {
    if is_bool_key(key) {
        v == ConfigValue::Bool(parse_bool(value)->0)
    } else if key == "security.max_command_timeout"@ {
        v == ConfigValue::Integer(parse_unsigned(value, u32::MAX as nat)->0 as i64)
    } else if is_size_key(key) {
        v == ConfigValue::Integer(parse_unsigned(value, usize::MAX as nat)->0 as i64)
    } else if is_list_key(key) {
        v matches ConfigValue::List(items) && strings_view(items@) == list_items(
            split_on(value, ','),
        )
    } else {
        v matches ConfigValue::Text(t) && t@ == value
    }
}

/// When `config set` refuses a value, and with which message.
pub open spec fn value_error(key: Seq<char>, value: Seq<char>) -> Option<Seq<char>> {
    if is_bool_key(key) {
        if parse_bool(value) is None {
            Some(bool_error(key, value))
        } else {
            None
        }
    } else if key == "security.max_command_timeout"@ {
        if parse_unsigned(value, u32::MAX as nat) is None {
            Some(integer_error(key, value))
        } else {
            None
        }
    } else if is_size_key(key) {
        if parse_unsigned(value, usize::MAX as nat) is None {
            Some(integer_error(key, value))
        } else {
            None
        }
    } else {
        None
    }
}

fn key_is(key: &Vec<char>, name: &str) -> (r: bool)
    ensures
        r == (key@ == name@),
{
    eq_str(key, name)
}

fn list_values(value: &Vec<char>) -> (r: Vec<String>)
    ensures
        strings_view(r@) == list_items(split_on(value@, ',')),
{
    let pieces = split_char(value, ',');
    let mut r: Vec<String> = Vec::new();
    for i in 0..pieces.len()
        invariant
            strings_view(r@) == list_items(vv(pieces@).take(i as int)),
    {
        let ghost p = vv(pieces@).take(i + 1);
        assert(p.drop_last() =~= vv(pieces@).take(i as int));
        let t = trim_chars(&pieces[i]);
        if t.len() > 0 {
            r.push(string_of(&t));
            assert(strings_view(r@) =~= list_items(p));
        } else {
            assert(strings_view(r@) =~= list_items(p));
        }
    }
    assert(vv(pieces@).take(pieces.len() as int) =~= vv(pieces@));
    r
}

fn error_text(key: &str, middle: &str, value: &str) -> (r: String)
    ensures
        r@ == key@ + middle@ + value@ + "'"@,
{
    let mut e = chars_of(key);
    extend_str(&mut e, middle);
    extend_str(&mut e, value);
    extend_str(&mut e, "'");
    string_of(&e)
}

/// Types a `config set` value by its key.
pub fn config_value_typed(key: &str, value: &str) -> (r: Result<ConfigValue, String>)
    ensures
        match value_error(key@, value@) {
            Some(msg) => r matches Err(e) && e@ == msg,
            None => r matches Ok(v) && typed_value(key@, value@, v),
        },
{
    let k = chars_of(key);
    let v = chars_of(value);
    if key_is(&k, "core.stream") || key_is(&k, "core.save_sessions") || key_is(
        &k,
        "ui.show_reasoning",
    ) || key_is(&k, "security.hook_chain") || key_is(&k, "security.landlock") || key_is(
        &k,
        "security.audit",
    ) {
        if eq_str(&v, "true") {
            return Ok(ConfigValue::Bool(true));
        } else if eq_str(&v, "false") {
            return Ok(ConfigValue::Bool(false));
        } else {
            return Err(
                error_text(key, " expects a boolean value (true or false), got '", value),
            );
        }
    }
    if key_is(&k, "security.max_command_timeout") {
        return match parse_unsigned_chars(&v, 4294967295u64) {
            Some(n) => Ok(ConfigValue::Integer(n as i64)),
            None => Err(error_text(key, " expects an integer value, got '", value)),
        };
    }
    if key_is(&k, "security.max_read_size") || key_is(&k, "security.max_write_size") || key_is(
        &k,
        "security.max_http_response_size",
    ) {
        let max = usize::MAX as u64;
        return match parse_unsigned_chars(&v, max) {
            Some(n) => Ok(ConfigValue::Integer(n as i64)),
            None => Err(error_text(key, " expects an integer value, got '", value)),
        };
    }
    if key_is(&k, "security.read_allowlist") || key_is(&k, "security.write_allowlist") || key_is(
        &k,
        "security.command_allowlist",
    ) {
        return Ok(ConfigValue::List(list_values(&v)));
    }
    Ok(ConfigValue::Text(value.to_owned()))
}

/// A configuration value as plain values.
pub enum ConfigValueView {
    Bool(bool),
    Integer(i64),
    List(Seq<Seq<char>>),
    Text(Seq<char>),
}

pub open spec fn config_value_view(v: ConfigValue) -> ConfigValueView {
    match v {
        ConfigValue::Bool(b) => ConfigValueView::Bool(b),
        ConfigValue::Integer(n) => ConfigValueView::Integer(n),
        ConfigValue::List(items) => ConfigValueView::List(strings_view(items@)),
        ConfigValue::Text(t) => ConfigValueView::Text(t@),
    }
}

/// An item of a TOML document (toml_edit `Item`), opaque here.
#[verifier::external_type_specification]
#[verifier::external_body]
pub struct ExTomlItem(toml_edit::Item);

/// The TOML item toml_edit builds for a configuration value: `value` of the
/// boolean, integer or text, or an `Array` of the list's strings.
pub uninterp spec fn toml_item_of(v: ConfigValueView) -> toml_edit::Item;

/// The TOML item of a configuration value (toml_edit `value`, `Array`):
/// booleans, integers and text as plain values, lists as arrays of strings.
/// The item depends on the value alone.
#[verifier::external_body]
fn toml_item(v: ConfigValue) -> (r: toml_edit::Item)
    ensures
        r == toml_item_of(config_value_view(v)),
{
    match v {
        ConfigValue::Bool(b) => toml_edit::value(b),
        ConfigValue::Integer(n) => toml_edit::value(n),
        ConfigValue::Text(t) => toml_edit::value(t),
        ConfigValue::List(items) => {
            let array: toml_edit::Array = items.iter().map(|s| s.as_str()).collect();
            toml_edit::Item::Value(toml_edit::Value::Array(array))
        },
    }
}

/// The TOML item that `config set <key> <value>` writes, or why the value is
/// refused.
pub fn config_value_for_key(key: &str, value: &str) -> (r: Result<toml_edit::Item, String>)
    ensures
        r is Err <==> value_error(key@, value@) is Some,
        r matches Err(e) ==> Some(e@) == value_error(key@, value@),
        r matches Ok(i) ==> exists|v: ConfigValue|
            typed_value(key@, value@, v) && i == toml_item_of(#[trigger] config_value_view(v)),
{
    let typed = config_value_typed(key, value)?;
    let ghost g = typed;
    let item = toml_item(typed);
    assert(typed_value(key@, value@, g) && item == toml_item_of(config_value_view(g)));
    Ok(item)
}

/// The table and entry a dotted key names: `a.b` is entry `b` of table `a`;
/// any other key is a top-level entry.
pub fn config_key_path(key: &str) -> (r: (Option<String>, String))
    ensures
        split_on(key@, '.').len() == 2 ==> (r.0 matches Some(t) && t@ == split_on(key@, '.')[0]
            && r.1@ == split_on(key@, '.')[1]),
        split_on(key@, '.').len() != 2 ==> r.0 is None && r.1@ == key@,
{
    let k = chars_of(key);
    let parts = split_char(&k, '.');
    if parts.len() == 2 {
        (Some(string_of(&parts[0])), string_of(&parts[1]))
    } else {
        (None, key.to_owned())
    }
}

// ---------------------------------------------------------------------------
// `config get`.
// ---------------------------------------------------------------------------

/// `{:?}` of a string: quoted, with `char::escape_debug` escapes.
pub uninterp spec fn debug_text(s: Seq<char>) -> Seq<char>;

/// std `Debug` for `str` (`format!("{:?}", s)`): the quoted, escaped text.
#[verifier::external_body]
fn debug_str(s: &str) -> (r: String)
    ensures
        r@ == debug_text(s@),
{
    format!("{:?}", s)
}

pub open spec fn bool_text(b: bool) -> Seq<char> {
    if b {
        "true"@
    } else {
        "false"@
    }
}

/// `{:?}` of an optional string.
pub open spec fn debug_opt_text(o: Option<String>) -> Seq<char> {
    match o {
        Some(s) => "Some("@ + debug_text(s@) + ")"@,
        None => "None"@,
    }
}

/// `{:?}` of an optional number.
pub open spec fn debug_opt_num(o: Option<nat>) -> Seq<char> {
    match o {
        Some(n) => "Some("@ + decimal(n) + ")"@,
        None => "None"@,
    }
}

pub open spec fn debug_views(v: Seq<String>) -> Seq<Seq<char>> {
    Seq::new(v.len(), |i: int| debug_text(v[i]@))
}

/// `{:?}` of a list of strings.
pub open spec fn debug_list(v: Seq<String>) -> Seq<char> {
    "["@ + crate::text::join(debug_views(v), ", "@) + "]"@
}

fn bool_string(b: bool) -> (r: String)
    ensures
        r@ == bool_text(b),
{
    if b {
        "true".to_owned()
    } else {
        "false".to_owned()
    }
}

fn debug_opt_string(o: &Option<String>) -> (r: String)
    ensures
        r@ == debug_opt_text(*o),
{
    match o {
        Some(s) => {
            let mut v = chars_of("Some(");
            let d = debug_str(s.as_str());
            extend_str(&mut v, d.as_str());
            extend_str(&mut v, ")");
            string_of(&v)
        },
        None => "None".to_owned(),
    }
}

fn debug_opt_number(o: Option<u64>) -> (r: String)
    ensures
        r@ == debug_opt_num(
            match o {
                Some(n) => Some(n as nat),
                None => None,
            },
        ),
{
    match o {
        Some(n) => {
            let mut v = chars_of("Some(");
            let d = decimal_chars(n as u128);
            extend_chars(&mut v, &d);
            extend_str(&mut v, ")");
            string_of(&v)
        },
        None => "None".to_owned(),
    }
}

fn debug_string_list(v: &Vec<String>) -> (r: String)
    ensures
        r@ == debug_list(v@),
{
    let mut items: Vec<Vec<char>> = Vec::new();
    for i in 0..v.len()
        invariant
            items@.len() == i,
            vv(items@) == debug_views(v@.take(i as int)),
    {
        let d = debug_str(v[i].as_str());
        let dc = chars_of(d.as_str());
        assert(dc@ == debug_text(v@[i as int]@));
        let ghost before = items@;
        items.push(dc);
        assert(items@.last()@ == debug_views(v@.take(i + 1))[i as int]);
        assert forall|j: int| 0 <= j < i implies #[trigger] vv(items@)[j] == debug_views(
            v@.take(i + 1),
        )[j] by {
            assert(items@[j] == before[j]);
            assert(vv(before)[j] == debug_views(v@.take(i as int))[j]);
        }
        assert(vv(items@) =~= debug_views(v@.take(i + 1)));
    }
    assert(v@.take(v.len() as int) =~= v@);
    let sep = chars_of(", ");
    let body = crate::text::join_chars(&items, &sep);
    let mut out = chars_of("[");
    extend_chars(&mut out, &body);
    extend_str(&mut out, "]");
    string_of(&out)
}

pub open spec fn opt_u32(o: Option<u32>) -> Option<nat> {
    match o {
        Some(n) => Some(n as nat),
        None => None,
    }
}

pub open spec fn opt_usize(o: Option<usize>) -> Option<nat> {
    match o {
        Some(n) => Some(n as nat),
        None => None,
    }
}

/// The text `config get <key>` shows for a key's value, none for an unknown
/// key.
pub open spec fn config_get_text(c: Config, key: Seq<char>) -> Option<Seq<char>> {
    if key == "core.default_model"@ {
        Some(c.core.default_model@)
    } else if key == "core.stream"@ {
        Some(bool_text(c.core.stream))
    } else if key == "core.save_sessions"@ {
        Some(bool_text(c.core.save_sessions))
    } else if key == "ui.theme"@ {
        Some(c.ui.theme@)
    } else if key == "ui.show_reasoning"@ {
        Some(bool_text(c.ui.show_reasoning))
    } else if key == "security.sandbox_mode"@ {
        Some(c.security.sandbox_mode@)
    } else if key == "security.hook_chain"@ {
        Some(bool_text(c.security.hook_chain))
    } else if key == "security.landlock"@ {
        Some(bool_text(c.security.landlock))
    } else if key == "security.audit"@ {
        Some(bool_text(c.security.audit))
    } else if key == "security.audit_dir"@ {
        Some(debug_opt_text(c.security.audit_dir))
    } else if key == "security.max_command_timeout"@ {
        Some(debug_opt_num(opt_u32(c.security.max_command_timeout)))
    } else if key == "security.max_read_size"@ {
        Some(debug_opt_num(opt_usize(c.security.max_read_size)))
    } else if key == "security.max_write_size"@ {
        Some(debug_opt_num(opt_usize(c.security.max_write_size)))
    } else if key == "security.max_http_response_size"@ {
        Some(debug_opt_num(opt_usize(c.security.max_http_response_size)))
    } else if key == "security.read_allowlist"@ {
        Some(debug_list(c.security.read_allowlist@))
    } else if key == "security.write_allowlist"@ {
        Some(debug_list(c.security.write_allowlist@))
    } else if key == "security.command_allowlist"@ {
        Some(debug_list(c.security.command_allowlist@))
    } else {
        None
    }
}

fn widen_u32(o: Option<u32>) -> (r: Option<u64>)
    ensures
        match r {
            Some(n) => Some(n as nat),
            None => None,
        } == opt_u32(o),
{
    match o {
        Some(n) => Some(n as u64),
        None => None,
    }
}

fn widen_usize(o: Option<usize>) -> (r: Option<u64>)
    ensures
        match r {
            Some(n) => Some(n as nat),
            None => None,
        } == opt_usize(o),
{
    match o {
        Some(n) => Some(n as u64),
        None => None,
    }
}

/// The value `config get <key>` prints after `<key> = `, or none for a key it
/// does not know.
pub fn config_get_value(config: &Config, key: &str) -> (r: Option<String>)
    ensures
        match r {
            Some(s) => Some(s@),
            None => None,
        } == config_get_text(*config, key@),
{
    let k = chars_of(key);
    let s = &config.security;
    if key_is(&k, "core.default_model") {
        Some(config.core.default_model.clone())
    } else if key_is(&k, "core.stream") {
        Some(bool_string(config.core.stream))
    } else if key_is(&k, "core.save_sessions") {
        Some(bool_string(config.core.save_sessions))
    } else if key_is(&k, "ui.theme") {
        Some(config.ui.theme.clone())
    } else if key_is(&k, "ui.show_reasoning") {
        Some(bool_string(config.ui.show_reasoning))
    } else if key_is(&k, "security.sandbox_mode") {
        Some(s.sandbox_mode.clone())
    } else if key_is(&k, "security.hook_chain") {
        Some(bool_string(s.hook_chain))
    } else if key_is(&k, "security.landlock") {
        Some(bool_string(s.landlock))
    } else if key_is(&k, "security.audit") {
        Some(bool_string(s.audit))
    } else if key_is(&k, "security.audit_dir") {
        Some(debug_opt_string(&s.audit_dir))
    } else if key_is(&k, "security.max_command_timeout") {
        Some(debug_opt_number(widen_u32(s.max_command_timeout)))
    } else if key_is(&k, "security.max_read_size") {
        Some(debug_opt_number(widen_usize(s.max_read_size)))
    } else if key_is(&k, "security.max_write_size") {
        Some(debug_opt_number(widen_usize(s.max_write_size)))
    } else if key_is(&k, "security.max_http_response_size") {
        Some(debug_opt_number(widen_usize(s.max_http_response_size)))
    } else if key_is(&k, "security.read_allowlist") {
        Some(debug_string_list(&s.read_allowlist))
    } else if key_is(&k, "security.write_allowlist") {
        Some(debug_string_list(&s.write_allowlist))
    } else if key_is(&k, "security.command_allowlist") {
        Some(debug_string_list(&s.command_allowlist))
    } else {
        None
    }
}

// ---------------------------------------------------------------------------
// `run` and `code`.
// ---------------------------------------------------------------------------

/// Where a run's prompt text comes from.
#[derive(Debug)]
pub enum PromptSource {
    /// The prompt given on the command line.
    Inline(String),
    /// The file named by `--file`, read verbatim.
    File(String),
}

/// A run takes its prompt from the command line or from `--file`, never both
/// and never neither.
pub fn run_prompt_source(prompt: Option<String>, file: Option<String>) -> (r: Result<
    PromptSource,
    String,
>)
    ensures
        prompt is Some && file is Some ==> (r matches Err(e) && e@
            == "Use either PROMPT or --file, not both"@),
        prompt is None && file is None ==> (r matches Err(e) && e@
            == "Missing prompt text or --file"@),
        prompt is Some && file is None ==> (r matches Ok(PromptSource::Inline(p)) && p
            == prompt->0),
        prompt is None && file is Some ==> (r matches Ok(PromptSource::File(f)) && f == file->0),
{
    match (prompt, file) {
        (Some(_), Some(_)) => Err("Use either PROMPT or --file, not both".to_owned()),
        (Some(p), None) => Ok(PromptSource::Inline(p)),
        (None, Some(f)) => Ok(PromptSource::File(f)),
        (None, None) => Err("Missing prompt text or --file".to_owned()),
    }
}

/// Whether a run prints tokens as they arrive: never with `--json`, else as
/// the flags say, else as the configuration says.
pub fn stream_output(json: bool, stream: bool, no_stream: bool, configured: bool) -> (r: bool)
    ensures
        r == if json {
            false
        } else if stream {
            true
        } else if no_stream {
            false
        } else {
            configured
        },
{
    if json {
        false
    } else if stream {
        true
    } else if no_stream {
        false
    } else {
        configured
    }
}

/// The `--stream` / `--no-stream` flags of a `run` or `code` command line.
#[derive(Debug, PartialEq, Eq, Structural)]
pub struct StreamFlags {
    pub stream: bool,
    pub no_stream: bool,
}

/// The flags after the given arguments: each flag overrides the other, so
/// the later one wins.
pub open spec fn stream_flags_of(args: Seq<Seq<char>>) -> (bool, bool)
    decreases args.len(),
{
    if args.len() == 0 {
        (false, false)
    } else {
        let prev = stream_flags_of(args.drop_last());
        if args.last() == "--stream"@ {
            (true, false)
        } else if args.last() == "--no-stream"@ {
            (false, true)
        } else {
            prev
        }
    }
}

/// Reads the stream flags of a command line.
pub fn run_stream_flags(args: &Vec<String>) -> (r: StreamFlags)
    ensures
        (r.stream, r.no_stream) == stream_flags_of(crate::commands::strings_view(args@)),
{
    let mut stream = false;
    let mut no_stream = false;
    for i in 0..args.len()
        invariant
            (stream, no_stream) == stream_flags_of(strings_view(args@).take(i as int)),
    {
        assert(strings_view(args@).take(i + 1).drop_last() =~= strings_view(args@).take(
            i as int,
        ));
        let a = chars_of(args[i].as_str());
        if eq_str(&a, "--stream") {
            stream = true;
            no_stream = false;
        } else if eq_str(&a, "--no-stream") {
            stream = false;
            no_stream = true;
        }
    }
    assert(strings_view(args@).take(args.len() as int) =~= strings_view(args@));
    StreamFlags { stream, no_stream }
}

} // verus!
