//! Daemon configuration: the file's contents, their defaults, and how they
//! resolve to device ids, paths and a sink.
//!
//! The environment is read by the caller and handed in as a `PathEnv`.

use vstd::prelude::*;

use crate::rpc::DEFAULT_SOCKET_PATH;
use crate::text::{
    push_str, spec_parse_u16, starts_with, str_eq, to_string, parse_u16_from, IntParseError,
};

verus! {

pub const DEFAULT_EVENT_NAME: &'static str = "qmk_state_changed";

pub const DEFAULT_VID: u16 = 0x303A;

pub const DEFAULT_PID: u16 = 0x4044;

/// The operating system the daemon runs on, as far as defaults care.
#[derive(Debug, Clone, Copy, PartialEq, Eq)]
pub enum Platform {
    MacOs,
    Other,
}

/// The environment variables that default paths depend on, as read by the
/// caller (`None` when unset).
#[derive(Debug, Clone)]
pub struct PathEnv {
    pub home: Option<String>,
    pub xdg_config_home: Option<String>,
    pub xdg_state_home: Option<String>,
    pub xdg_runtime_dir: Option<String>,
    pub platform: Platform,
}

/// The contents of the config file; every entry is optional.
#[derive(Debug, Clone)]
pub struct Config {
    pub vid: Option<String>,
    pub pid: Option<String>,
    pub state_file: Option<String>,
    pub socket: Option<String>,
    pub sink: Option<SinkConfig>,
}

impl Default for Config {
    fn default() -> (c: Self)
        ensures
            c.vid is None,
            c.pid is None,
            c.state_file is None,
            c.socket is None,
            c.sink is None,
    {
        Config { vid: None, pid: None, state_file: None, socket: None, sink: None }
    }
}

/// Which sink receives state changes, and under which event name.
#[derive(Debug, Clone)]
pub enum SinkConfig {
    Sketchybar { event: Option<String> },
    /// `program` is one argv; `commands` are further argvs run after it.
    Command { event: Option<String>, program: Vec<String>, commands: Vec<Vec<String>> },
    Null { event: Option<String> },
}

impl SinkConfig {
    /// The sink used when the config names none: sketchybar on macOS, the
    /// null sink elsewhere, with the default event name.
    pub fn default_for(platform: Platform) -> (c: Self)
        ensures
            platform == Platform::MacOs ==> (c matches SinkConfig::Sketchybar { event } && event
                matches Some(e) && e@ == DEFAULT_EVENT_NAME@),
            platform == Platform::Other ==> (c matches SinkConfig::Null { event } && event matches Some(
                e,
            ) && e@ == DEFAULT_EVENT_NAME@),
    {
        match platform {
            Platform::MacOs => SinkConfig::Sketchybar { event: Some(to_string(DEFAULT_EVENT_NAME)) },
            Platform::Other => SinkConfig::Null { event: Some(to_string(DEFAULT_EVENT_NAME)) },
        }
    }
}

#[derive(Debug, Clone)]
pub struct ResolvedConfig {
    pub vid: u16,
    pub pid: u16,
    pub state_file: String,
    pub socket: String,
    pub sink: SinkConfig,
}

/// Why the config does not resolve.
#[derive(Debug, Clone, Copy, PartialEq, Eq)]
pub enum ConfigError {
    BadVid(IntParseError),
    BadPid(IntParseError),
}

/// `base` joined with `rel` as a path: `rel` itself when it is absolute,
/// otherwise `rel` after `base`, with a `/` between unless `base` is empty
/// or already ends in one.
pub open spec fn spec_join(base: Seq<char>, rel: Seq<char>) -> Seq<char> {
    if rel.len() > 0 && rel[0] == '/' {
        rel
    } else if base.len() == 0 || base.last() == '/' {
        base + rel
    } else {
        base + "/"@ + rel
    }
}

pub fn join_path(base: &str, rel: &str) -> (p: String)
    ensures
        p@ == spec_join(base@, rel@),
{
    proof {
        reveal_strlit("/");
    }
    if rel.unicode_len() > 0 && rel.get_char(0) == '/' {
        return to_string(rel);
    }
    let n = base.unicode_len();
    let mut p = to_string(base);
    if !(n == 0 || base.get_char(n - 1) == '/') {
        push_str(&mut p, "/");
    }
    push_str(&mut p, rel);
    p
}

/// The first variable of the list that is set, joined with its suffix; the
/// fallback when none is.
pub open spec fn spec_env_path(
    first: Option<String>,
    first_rel: Seq<char>,
    second: Option<String>,
    second_rel: Seq<char>,
    fallback: Seq<char>,
) -> Seq<char> {
    match first {
        Some(v) => spec_join(v@, first_rel),
        None => match second {
            Some(v) => spec_join(v@, second_rel),
            None => fallback,
        },
    }
}

/// `$XDG_CONFIG_HOME/qmk-state-daemon/config.toml`, else
/// `$HOME/.config/qmk-state-daemon/config.toml`, else `qmk-state-daemon.toml`.
pub fn default_config_path(env: &PathEnv) -> (p: String)
    ensures
        p@ == spec_env_path(
            env.xdg_config_home,
            "qmk-state-daemon/config.toml"@,
            env.home,
            ".config/qmk-state-daemon/config.toml"@,
            "qmk-state-daemon.toml"@,
        ),
{
    if let Some(xdg) = &env.xdg_config_home {
        return join_path(xdg.as_str(), "qmk-state-daemon/config.toml");
    }
    if let Some(home) = &env.home {
        return join_path(home.as_str(), ".config/qmk-state-daemon/config.toml");
    }
    to_string("qmk-state-daemon.toml")
}

/// `$XDG_RUNTIME_DIR/qmk-state-daemon.sock`, else the fixed socket path.
pub fn default_socket_path(env: &PathEnv) -> (p: String)
    ensures
        p@ == spec_env_path(
            env.xdg_runtime_dir,
            "qmk-state-daemon.sock"@,
            None,
            Seq::empty(),
            DEFAULT_SOCKET_PATH@,
        ),
{
    if let Some(runtime) = &env.xdg_runtime_dir {
        return join_path(runtime.as_str(), "qmk-state-daemon.sock");
    }
    to_string(DEFAULT_SOCKET_PATH)
}

/// `$XDG_STATE_HOME/qmk-state-daemon/state.json`, else
/// `$HOME/.local/state/qmk-state-daemon/state.json`, else
/// `/tmp/qmk_state.json`.
pub fn default_state_file(env: &PathEnv) -> (p: String)
    ensures
        p@ == spec_env_path(
            env.xdg_state_home,
            "qmk-state-daemon/state.json"@,
            env.home,
            ".local/state/qmk-state-daemon/state.json"@,
            "/tmp/qmk_state.json"@,
        ),
{
    if let Some(xdg) = &env.xdg_state_home {
        return join_path(xdg.as_str(), "qmk-state-daemon/state.json");
    }
    if let Some(home) = &env.home {
        return join_path(home.as_str(), ".local/state/qmk-state-daemon/state.json");
    }
    to_string("/tmp/qmk_state.json")
}

/// The starter config: device ids, commented path entries, and a sink
/// section for the platform.
pub open spec fn spec_default_config_text(platform: Platform) -> Seq<char> {
    "# qmk-state-daemon config\nvid = \"0x303A\"\npid = \"0x4044\"\n# Omit state_file/socket to use XDG defaults.\n# state_file = \"auto\"\n# socket = \"auto\"\n\n"@
        + if platform == Platform::MacOs {
        "[sink]\nkind = \"sketchybar\"\nevent = \"qmk_state_changed\"\n"@
    } else {
        "[sink]\nkind = \"command\"\nevent = \"qmk_state_changed\"\nprogram = [\"/bin/sh\", \"-lc\", \"env | grep '^QMK_' >> /tmp/qmk-state-daemon-events.log\"]\n"@
    }
}

pub fn default_config_text(platform: Platform) -> (t: String)
    ensures
        t@ == spec_default_config_text(platform),
{
    let mut t = to_string(
        "# qmk-state-daemon config\nvid = \"0x303A\"\npid = \"0x4044\"\n# Omit state_file/socket to use XDG defaults.\n# state_file = \"auto\"\n# socket = \"auto\"\n\n",
    );
    match platform {
        Platform::MacOs => push_str(
            &mut t,
            "[sink]\nkind = \"sketchybar\"\nevent = \"qmk_state_changed\"\n",
        ),
        Platform::Other => push_str(
            &mut t,
            "[sink]\nkind = \"command\"\nevent = \"qmk_state_changed\"\nprogram = [\"/bin/sh\", \"-lc\", \"env | grep '^QMK_' >> /tmp/qmk-state-daemon-events.log\"]\n",
        ),
    }
    t
}

/// A `u16` written in hex after `0x` or `0X`, or in decimal.
pub open spec fn spec_parse_u16_auto(s: Seq<char>) -> Result<u16, IntParseError> {
    if s.len() >= 2 && s[0] == '0' && (s[1] == 'x' || s[1] == 'X') {
        spec_parse_u16(s.skip(2), 16)
    } else {
        spec_parse_u16(s, 10)
    }
}

/// Parses a `u16` given as `0x…`/`0X…` hex or as decimal.
pub fn parse_u16_text(s: &str) -> (r: Result<u16, IntParseError>)
    ensures
        r == spec_parse_u16_auto(s@),
{
    proof {
        reveal_strlit("0x");
        reveal_strlit("0X");
    }
    let hex = starts_with(s, "0x") || starts_with(s, "0X");
    assert(hex == (s@.len() >= 2 && s@[0] == '0' && (s@[1] == 'x' || s@[1] == 'X'))) by {
        if s@.len() >= 2 {
            assert(s@.subrange(0, 2)[0] == s@[0]);
            assert(s@.subrange(0, 2)[1] == s@[1]);
            if s@[0] == '0' && s@[1] == 'x' {
                assert(s@.subrange(0, 2) =~= "0x"@);
            }
            if s@[0] == '0' && s@[1] == 'X' {
                assert(s@.subrange(0, 2) =~= "0X"@);
            }
        }
    }
    if hex {
        assert(s@.subrange(2, s@.len() as int) =~= s@.skip(2));
        parse_u16_from(s, 2, 16)
    } else {
        assert(s@.subrange(0, s@.len() as int) =~= s@);
        parse_u16_from(s, 0, 10)
    }
}

pub fn parse_u16_auto(s: Option<&str>) -> (r: Option<Result<u16, IntParseError>>)
    ensures
        match s {
            None => r is None,
            Some(t) => r == Some(spec_parse_u16_auto(t@)),
        },
{
    match s {
        None => None,
        Some(t) => Some(parse_u16_text(t)),
    }
}

/// The characters of an optional string slice.
pub open spec fn opt_view(s: Option<&str>) -> Option<Seq<char>> {
    match s {
        Some(t) => Some(t@),
        None => None,
    }
}

/// The characters of an optional string.
pub open spec fn opt_string_view(s: Option<String>) -> Option<Seq<char>> {
    match s {
        Some(t) => Some(t@),
        None => None,
    }
}

/// `~` alone is the home directory and `~/rest` is `rest` under it, when
/// the home directory is known; any other path stays as written.
pub open spec fn spec_expand_home(path: Seq<char>, home: Option<Seq<char>>) -> Seq<char> {
    match home {
        Some(h) => if path == "~"@ {
            h
        } else if path.len() >= 2 && path[0] == '~' && path[1] == '/' {
            spec_join(h, path.skip(2))
        } else {
            path
        },
        None => path,
    }
}

pub fn expand_home(path: &str, home: Option<&str>) -> (p: String)
    ensures
        p@ == spec_expand_home(path@, opt_view(home)),
{
    proof {
        reveal_strlit("~");
        reveal_strlit("~/");
    }
    if let Some(h) = home {
        if str_eq(path, "~") {
            return to_string(h);
        }
        let tilde_slash = starts_with(path, "~/");
        assert(tilde_slash == (path@.len() >= 2 && path@[0] == '~' && path@[1] == '/')) by {
            if path@.len() >= 2 {
                assert(path@.subrange(0, 2)[0] == path@[0]);
                assert(path@.subrange(0, 2)[1] == path@[1]);
                if path@[0] == '~' && path@[1] == '/' {
                    assert(path@.subrange(0, 2) =~= "~/"@);
                }
            }
        }
        if tilde_slash {
            let rest = path.substring_char(2, path.unicode_len());
            assert(rest@ =~= path@.skip(2));
            return join_path(h, rest);
        }
    }
    to_string(path)
}

/// A path entry of the config: unset, empty or `auto` mean the default;
/// anything else is the path with `~` expanded.
pub open spec fn spec_resolve_path(raw: Option<Seq<char>>, default: Seq<char>, home: Option<
    Seq<char>,
>) -> Seq<char> {
    match raw {
        None => default,
        Some(p) => if p.len() == 0 || p == "auto"@ {
            default
        } else {
            spec_expand_home(p, home)
        },
    }
}

pub fn resolve_path_opt(raw: Option<&str>, default: String, home: Option<&str>) -> (p: String)
    ensures
        p@ == spec_resolve_path(opt_view(raw), default@, opt_view(home)),
{
    proof {
        reveal_strlit("auto");
    }
    match raw {
        None => default,
        Some(path) => if path.unicode_len() == 0 || str_eq(path, "auto") {
            default
        } else {
            expand_home(path, home)
        },
    }
}

fn opt_str(s: &Option<String>) -> (r: Option<&str>)
    ensures
        opt_view(r) == opt_string_view(*s),
{
    match s {
        Some(t) => Some(t.as_str()),
        None => None,
    }
}

/// Is `c` the sink used when the config names none?
pub open spec fn is_default_sink(c: SinkConfig, platform: Platform) -> bool {
    match platform {
        Platform::MacOs => c matches SinkConfig::Sketchybar { event } && event matches Some(e)
            && e@ == DEFAULT_EVENT_NAME@,
        Platform::Other => c matches SinkConfig::Null { event } && event matches Some(e) && e@
            == DEFAULT_EVENT_NAME@,
    }
}

/// A device id entry: the default when unset, else its parsed value.
pub open spec fn spec_resolve_id(raw: Option<String>, default: u16) -> Result<u16, IntParseError> {
    match raw {
        None => Ok(default),
        Some(t) => spec_parse_u16_auto(t@),
    }
}

impl Config {
    /// Resolves ids, paths and sink. The vid is checked before the pid;
    /// a bad one is the error.
    pub fn resolve(self, env: &PathEnv) -> (r: Result<ResolvedConfig, ConfigError>)
        ensures
            spec_resolve_id(self.vid, DEFAULT_VID) matches Err(e) ==> r == Err::<
                ResolvedConfig,
                ConfigError,
            >(ConfigError::BadVid(e)),
            spec_resolve_id(self.vid, DEFAULT_VID) is Ok ==> (spec_resolve_id(self.pid, DEFAULT_PID) matches Err(e)
                ==> r == Err::<ResolvedConfig, ConfigError>(ConfigError::BadPid(e))),
            spec_resolve_id(self.vid, DEFAULT_VID) is Ok && spec_resolve_id(self.pid, DEFAULT_PID) is Ok
                ==> (r matches Ok(c) && c.vid == spec_resolve_id(self.vid, DEFAULT_VID)->Ok_0
                && c.pid == spec_resolve_id(self.pid, DEFAULT_PID)->Ok_0 && c.state_file@
                == spec_resolve_path(
                opt_string_view(self.state_file),
                spec_env_path(
                    env.xdg_state_home,
                    "qmk-state-daemon/state.json"@,
                    env.home,
                    ".local/state/qmk-state-daemon/state.json"@,
                    "/tmp/qmk_state.json"@,
                ),
                opt_string_view(env.home),
            ) && c.socket@ == spec_resolve_path(
                opt_string_view(self.socket),
                spec_env_path(
                    env.xdg_runtime_dir,
                    "qmk-state-daemon.sock"@,
                    None,
                    Seq::empty(),
                    DEFAULT_SOCKET_PATH@,
                ),
                opt_string_view(env.home),
            ) && match self.sink {
                Some(s) => c.sink == s,
                None => is_default_sink(c.sink, env.platform),
            }),
    {
        let vid = match parse_u16_auto(opt_str(&self.vid)) {
            Some(Ok(v)) => v,
            Some(Err(e)) => return Err(ConfigError::BadVid(e)),
            None => DEFAULT_VID,
        };
        let pid = match parse_u16_auto(opt_str(&self.pid)) {
            Some(Ok(v)) => v,
            Some(Err(e)) => return Err(ConfigError::BadPid(e)),
            None => DEFAULT_PID,
        };
        let home = opt_str(&env.home);
        let state_file = resolve_path_opt(opt_str(&self.state_file), default_state_file(env), home);
        let socket = resolve_path_opt(opt_str(&self.socket), default_socket_path(env), home);
        let sink = match self.sink {
            Some(s) => s,
            None => SinkConfig::default_for(env.platform),
        };
        Ok(ResolvedConfig { vid, pid, state_file, socket, sink })
    }
}

} // verus!
