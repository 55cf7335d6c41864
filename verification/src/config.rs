//! The client's configuration: its sections, their defaults, and where the
//! configuration file is looked for.

use crate::session::{join_path, path_join};
use crate::text::{chars_of, eq_str};
use vstd::prelude::*;

verus! {

/// The whole configuration.
#[derive(Debug)]
pub struct Config {
    /// The file the configuration was read from (or would be written to).
    pub path: String,
    pub core: CoreConfig,
    pub ui: UiConfig,
    pub security: SecurityConfig,
    /// Per-provider settings, by provider name.
    pub providers: Vec<(String, ProviderConfig)>,
}

#[derive(Debug)]
pub struct CoreConfig {
    pub default_model: String,
    pub stream: bool,
    pub save_sessions: bool,
}

#[derive(Debug)]
pub struct UiConfig {
    pub theme: String,
    pub show_reasoning: bool,
}

#[derive(Debug)]
pub struct ProviderConfig {
    pub api_key: Option<String>,
    pub base_url: Option<String>,
}

#[derive(Debug)]
pub struct SecurityConfig {
    pub sandbox_mode: String,
    pub read_allowlist: Vec<String>,
    pub write_allowlist: Vec<String>,
    pub command_allowlist: Vec<String>,
    pub hook_chain: bool,
    pub landlock: bool,
    pub audit: bool,
    pub audit_dir: Option<String>,
    pub max_command_timeout: Option<u32>,
    pub max_read_size: Option<usize>,
    pub max_write_size: Option<usize>,
    pub max_http_response_size: Option<usize>,
}

/// The model a `[core]` table names when it leaves `default_model` out.
pub fn default_model() -> (r: String)
    ensures
        r@ == "sonnet"@,
{
    "sonnet".to_owned()
}

/// The theme a `[ui]` table names when it leaves `theme` out.
pub fn default_theme() -> (r: String)
    ensures
        r@ == "dark"@,
{
    "dark".to_owned()
}

/// The sandbox mode a `[security]` table names when it leaves it out.
pub fn default_sandbox_mode() -> (r: String)
    ensures
        r@ == "project"@,
{
    "project".to_owned()
}

/// The value of the boolean keys that default to on.
pub fn default_true() -> (r: bool)
    ensures
        r,
{
    true
}

/// `<dir>/lattice/config.toml`.
pub open spec fn config_file_in(dir: Seq<char>) -> Seq<char> {
    path_join(path_join(dir, "lattice"@), "config.toml"@)
}

/// The per-user configuration directory (dirs `config_dir`), as text. The
/// environment and the platform decide it: nothing is stated.
#[verifier::external_body]
pub(crate) fn user_config_dir() -> Option<String> {
    dirs::config_dir().map(|p| p.to_string_lossy().into_owned())
}

/// The configuration file under a configuration directory, or under `.` when
/// there is none.
pub fn config_file_under(dir: Option<String>) -> (r: String)
    ensures
        r@ == config_file_in(
            match dir {
                Some(d) => d@,
                None => "."@,
            },
        ),
{
    let base = match dir {
        Some(d) => d,
        None => ".".to_owned(),
    };
    let sub = join_path(base.as_str(), "lattice");
    join_path(sub.as_str(), "config.toml")
}

/// The file `Config::load` reads: the explicit path, else `config.toml` under
/// the configuration directory, else `lattice.toml`.
pub fn config_load_path(explicit: Option<String>, dir: Option<String>) -> (r: String)
    ensures
        r@ == match explicit {
            Some(p) => p@,
            None => match dir {
                Some(d) => config_file_in(d@),
                None => "lattice.toml"@,
            },
        },
{
    match explicit {
        Some(p) => p,
        None => match dir {
            Some(d) => {
                let sub = join_path(d.as_str(), "lattice");
                join_path(sub.as_str(), "config.toml")
            },
            None => "lattice.toml".to_owned(),
        },
    }
}

pub open spec fn is_default_core(c: CoreConfig) -> bool {
    c.default_model@.len() == 0 && !c.stream && !c.save_sessions
}

pub open spec fn is_default_ui(u: UiConfig) -> bool {
    u.theme@.len() == 0 && !u.show_reasoning
}

pub open spec fn is_default_security(s: SecurityConfig) -> bool {
    &&& s.sandbox_mode@ == "project"@
    &&& s.read_allowlist@.len() == 0
    &&& s.write_allowlist@.len() == 0
    &&& s.command_allowlist@.len() == 0
    &&& s.hook_chain
    &&& !s.landlock
    &&& !s.audit
    &&& s.audit_dir is None
    &&& s.max_command_timeout is None
    &&& s.max_read_size is None
    &&& s.max_write_size is None
    &&& s.max_http_response_size is None
}

impl Default for CoreConfig {
    /// All fields empty or off (the field-wise default).
    fn default() -> (r: Self)
        ensures
            is_default_core(r),
    {
        CoreConfig { default_model: String::new(), stream: false, save_sessions: false }
    }
}

impl Default for UiConfig {
    /// All fields empty or off (the field-wise default).
    fn default() -> (r: Self)
        ensures
            is_default_ui(r),
    {
        UiConfig { theme: String::new(), show_reasoning: false }
    }
}

impl Default for ProviderConfig {
    fn default() -> (r: Self)
        ensures
            r.api_key is None,
            r.base_url is None,
    {
        ProviderConfig { api_key: None, base_url: None }
    }
}

impl Default for SecurityConfig {
    /// Project sandbox, hook chain on, everything else off or unset.
    fn default() -> (r: Self)
        ensures
            is_default_security(r),
    {
        SecurityConfig {
            sandbox_mode: default_sandbox_mode(),
            read_allowlist: Vec::new(),
            write_allowlist: Vec::new(),
            command_allowlist: Vec::new(),
            hook_chain: true,
            landlock: false,
            audit: false,
            audit_dir: None,
            max_command_timeout: None,
            max_read_size: None,
            max_write_size: None,
            max_http_response_size: None,
        }
    }
}

/// No provider name occurs twice.
pub open spec fn names_once(ps: Seq<(String, ProviderConfig)>) -> bool {
    forall|i: int, j: int| 0 <= i < j < ps.len() ==> (#[trigger] ps[i]).0@ != (#[trigger] ps[j]).0@
}

/// Where a provider name stands in the list.
pub open spec fn provider_slot(ps: Seq<(String, ProviderConfig)>, name: Seq<char>) -> Option<int> {
    if exists|i: int| 0 <= i < ps.len() && (#[trigger] ps[i]).0@ == name {
        Some(choose|i: int| 0 <= i < ps.len() && (#[trigger] ps[i]).0@ == name)
    } else {
        None
    }
}

impl Default for Config {
    /// Default sections and no providers, at `config.toml` under the user's
    /// configuration directory.
    fn default() -> (r: Self)
        ensures
            is_default_core(r.core),
            is_default_ui(r.ui),
            is_default_security(r.security),
            r.providers@.len() == 0,
            names_once(r.providers@),
            r.path@ == config_file_in("."@) || exists|d: Seq<char>| r.path@ == config_file_in(d),
    {
        let path = config_file_under(user_config_dir());
        Config {
            path,
            core: CoreConfig::default(),
            ui: UiConfig::default(),
            security: SecurityConfig::default(),
            providers: Vec::new(),
        }
    }
}

impl Config {
    /// A configuration that no file provided, at the given path.
    pub fn defaults_at(path: String) -> (r: Config)
        ensures
            r.path@ == path@,
            is_default_core(r.core),
            is_default_ui(r.ui),
            is_default_security(r.security),
            r.providers@.len() == 0,
            names_once(r.providers@),
    {
        Config {
            path,
            core: CoreConfig::default(),
            ui: UiConfig::default(),
            security: SecurityConfig::default(),
            providers: Vec::new(),
        }
    }

    /// Sets the settings of a provider: those of a provider already listed
    /// under the name are replaced, else the provider is added at the end.
    pub fn set_provider(&mut self, name: String, settings: ProviderConfig)
        requires
            names_once(old(self).providers@),
        ensures
            names_once(final(self).providers@),
            final(self).providers@ == match provider_slot(old(self).providers@, name@) {
                Some(i) => old(self).providers@.update(i, (name, settings)),
                None => old(self).providers@.push((name, settings)),
            },
            final(self).path == old(self).path,
            final(self).core == old(self).core,
            final(self).ui == old(self).ui,
            final(self).security == old(self).security,
    {
        let ghost ps = self.providers@;
        let key = chars_of(name.as_str());
        let mut i: usize = 0;
        while i < self.providers.len()
            invariant
                i <= self.providers@.len(),
                *self == *old(self),
                self.providers@ == ps,
                names_once(ps),
                key@ == name@,
                forall|j: int| 0 <= j < i ==> (#[trigger] ps[j]).0@ != name@,
            decreases self.providers@.len() - i,
        {
            if eq_str(&key, self.providers[i].0.as_str()) {
                proof {
                    assert(ps[i as int].0@ == name@);
                    let c = choose|j: int| 0 <= j < ps.len() && (#[trigger] ps[j]).0@ == name@;
                    if c != i as int {
                        if c < i {
                            assert(ps[c].0@ != name@);
                        } else {
                            assert(ps[i as int].0@ != ps[c].0@);
                        }
                    }
                }
                self.providers.set(i, (name, settings));
                proof {
                    let qs = self.providers@;
                    assert forall|a: int, b: int| 0 <= a < b < qs.len() implies (#[trigger] qs[a]).0@
                        != (#[trigger] qs[b]).0@ by {
                        if a != i as int && b != i as int {
                            assert(ps[a].0@ != ps[b].0@);
                        } else if a == i as int {
                            assert(ps[a].0@ != ps[b].0@);
                        } else {
                            assert(ps[a].0@ != ps[b].0@);
                        }
                    }
                }
                return;
            }
            i += 1;
        }
        assert(provider_slot(ps, name@) is None);
        self.providers.push((name, settings));
        proof {
            let qs = self.providers@;
            assert forall|a: int, b: int| 0 <= a < b < qs.len() implies (#[trigger] qs[a]).0@
                != (#[trigger] qs[b]).0@ by {
                if b < ps.len() {
                    assert(ps[a].0@ != ps[b].0@);
                } else {
                    assert(ps[a].0@ != name@);
                }
            }
        }
    }

    /// The model used when none is named.
    pub fn default_model(&self) -> (r: String)
        ensures
            r@ == self.core.default_model@,
    {
        self.core.default_model.clone()
    }
}

} // verus!
