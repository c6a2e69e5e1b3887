//! Daemon configuration. The raw `socket` text is kept as written and expanded only on demand
//! through [`Config::socket_path`].

use vstd::prelude::*;

use crate::text;

verus! {

/// How competing notifications share the single island surface.
#[derive(Clone, Copy, Debug, PartialEq, Eq, Structural)]
pub enum QueuePolicy {
    /// A higher-priority notification preempts the live one.
    PriorityPreempt,
    /// Strict arrival order; the live notification finishes first.
    Fifo,
}

impl Default for QueuePolicy {
    fn default() -> (r: Self)
        ensures
            r == QueuePolicy::PriorityPreempt,
    {
        QueuePolicy::PriorityPreempt
    }
}

/// The `[queue]` table.
#[derive(Clone, Copy, Debug, PartialEq, Eq, Structural)]
pub struct QueueConfig {
    pub policy: QueuePolicy,
    pub max_visible: usize,
    /// Updates sharing a `replace_key` collapse onto one live surface.
    pub coalesce_replace: bool,
}

impl Default for QueueConfig {
    fn default() -> (r: Self)
        ensures
            r == (QueueConfig {
                policy: QueuePolicy::PriorityPreempt,
                max_visible: 1,
                coalesce_replace: true,
            }),
    {
        QueueConfig { policy: QueuePolicy::default(), max_visible: one(), coalesce_replace: tru() }
    }
}

/// The `[sources.freedesktop]` table.
#[derive(Clone, Copy, Debug, PartialEq, Eq, Structural)]
pub struct FreedesktopConfig {
    /// Own `org.freedesktop.Notifications`. Off by default: seizing the bus name takes an explicit
    /// opt-in.
    pub take_over: bool,
    pub replace_existing: bool,
}

impl Default for FreedesktopConfig {
    fn default() -> (r: Self)
        ensures
            r == (FreedesktopConfig { take_over: false, replace_existing: true }),
    {
        FreedesktopConfig { take_over: false, replace_existing: tru() }
    }
}

/// The `[sources.mpris]` table.
#[derive(Debug)]
pub struct MprisConfig {
    /// Match players by MPRIS `Identity`, never the churning bus name.
    pub identities: Vec<String>,
    /// Players whose own freedesktop notifications are dropped, so that the song card is not
    /// doubled.
    pub suppress_freedesktop_from: Vec<String>,
    pub debounce_ms: u64,
}

impl Clone for MprisConfig {
    fn clone(&self) -> (r: Self)
        ensures
            r.identities@ == self.identities@,
            r.suppress_freedesktop_from@ == self.suppress_freedesktop_from@,
            r.debounce_ms == self.debounce_ms,
    {
        MprisConfig {
            identities: text::clone_texts(&self.identities),
            suppress_freedesktop_from: text::clone_texts(&self.suppress_freedesktop_from),
            debounce_ms: self.debounce_ms,
        }
    }
}

impl MprisConfig {
    /// Whether nothing is configured. An absent table debounces by 0 ms; a table that leaves
    /// `debounce_ms` out gets [`debounce_default`].
    pub open spec fn is_default(self) -> bool {
        &&& self.identities@.len() == 0
        &&& self.suppress_freedesktop_from@.len() == 0
        &&& self.debounce_ms == 0
    }
}

impl Default for MprisConfig {
    fn default() -> (r: Self)
        ensures
            r.is_default(),
    {
        MprisConfig {
            identities: Vec::new(),
            suppress_freedesktop_from: Vec::new(),
            debounce_ms: 0,
        }
    }
}

/// The `[sources.ipc]` table.
#[derive(Clone, Copy, Debug, PartialEq, Eq, Structural)]
pub struct IpcConfig {
    pub enabled: bool,
}

impl Default for IpcConfig {
    fn default() -> (r: Self)
        ensures
            r == (IpcConfig { enabled: true }),
    {
        IpcConfig { enabled: tru() }
    }
}

/// The `[sources]` table.
#[derive(Debug)]
pub struct SourcesConfig {
    pub freedesktop: FreedesktopConfig,
    pub mpris: MprisConfig,
    pub ipc: IpcConfig,
}

impl SourcesConfig {
    /// Whether every table holds its defaults.
    pub open spec fn is_default(self) -> bool {
        &&& self.freedesktop == (FreedesktopConfig { take_over: false, replace_existing: true })
        &&& self.mpris.is_default()
        &&& self.ipc == (IpcConfig { enabled: true })
    }
}

impl Default for SourcesConfig {
    fn default() -> (r: Self)
        ensures
            r.is_default(),
    {
        SourcesConfig {
            freedesktop: FreedesktopConfig::default(),
            mpris: MprisConfig::default(),
            ipc: IpcConfig::default(),
        }
    }
}

/// The whole of `config.toml`.
#[derive(Debug)]
pub struct Config {
    pub socket: String,
    pub monitor: String,
    pub log_level: String,
    pub queue: QueueConfig,
    pub sources: SourcesConfig,
}

/// Whether every setting holds its default.
pub open spec fn is_default(c: Config) -> bool {
    &&& c.socket@ == "$XDG_RUNTIME_DIR/dynamicnoti.sock"@
    &&& c.monitor@ == "all"@
    &&& c.log_level@ == "info"@
    &&& c.queue == (QueueConfig {
        policy: QueuePolicy::PriorityPreempt,
        max_visible: 1,
        coalesce_replace: true,
    })
    &&& c.sources.is_default()
}

impl Default for Config {
    fn default() -> (r: Self)
        ensures
            is_default(r),
    {
        Config {
            socket: default_socket(),
            monitor: default_monitor(),
            log_level: default_log_level(),
            queue: QueueConfig::default(),
            sources: SourcesConfig::default(),
        }
    }
}

impl Config {
    /// The socket path with `$XDG_RUNTIME_DIR` (and `$HOME` or `~`) expanded. The caller hands in
    /// what the two variables hold.
    pub fn socket_path(&self, runtime_dir: Option<&str>, home: Option<&str>) -> (r: String)
        ensures
            r@ == expand_spec(self.socket@, opt_str(runtime_dir), opt_str(home)),
    {
        expand_xdg(self.socket.as_str(), runtime_dir, home)
    }
}

/// The view of an optional borrowed text.
pub open spec fn opt_str(s: Option<&str>) -> Option<Seq<char>> {
    match s {
        Some(t) => Some(t@),
        None => None,
    }
}

/// A path with its leading `$XDG_RUNTIME_DIR` (`/tmp` when unset), `$HOME` or `~` expanded; a `~`
/// stands alone or before a `/`. An unset home leaves the path as it is, and so does any other
/// start.
pub open spec fn expand_spec(
    s: Seq<char>,
    runtime_dir: Option<Seq<char>>,
    home: Option<Seq<char>>,
) -> Seq<char> {
    if "$XDG_RUNTIME_DIR"@.is_prefix_of(s) {
        let base = match runtime_dir {
            Some(d) => d,
            None => "/tmp"@,
        };
        base + s.skip("$XDG_RUNTIME_DIR"@.len() as int)
    } else if "$HOME"@.is_prefix_of(s) && home is Some {
        home->0 + s.skip("$HOME"@.len() as int)
    } else if s.len() > 0 && s[0] == '~' && (s.len() == 1 || s[1] == '/') && home is Some {
        home->0 + s.skip(1)
    } else {
        s
    }
}

/// Expands a leading `$XDG_RUNTIME_DIR`, `$HOME` or `~`. Falls back to `/tmp` when
/// `XDG_RUNTIME_DIR` is unset, so that the daemon still has a usable socket path.
pub fn expand_xdg(s: &str, runtime_dir: Option<&str>, home: Option<&str>) -> (r: String)
    ensures
        r@ == expand_spec(s@, opt_str(runtime_dir), opt_str(home)),
{
    if let Some(rest) = text::strip_prefix(s, "$XDG_RUNTIME_DIR") {
        let base: &str = match runtime_dir {
            Some(d) => d,
            None => "/tmp",
        };
        return text::concat(base, rest);
    }
    if let Some(rest) = text::strip_prefix(s, "$HOME") {
        if let Some(h) = home {
            return text::concat(h, rest);
        }
    }
    proof {
        reveal_strlit("$HOME");
        reveal_strlit("~");
        reveal_strlit("/");
        if "$HOME"@.is_prefix_of(s@) {
            assert("$HOME"@[0] == s@[0]);
        }
        if "~"@.is_prefix_of(s@) {
            assert("~"@[0] == s@[0]);
        } else if s@.len() > 0 && s@[0] == '~' {
            assert("~"@ =~= s@.subrange(0, 1));
        }
    }
    if let Some(rest) = text::strip_prefix(s, "~") {
        assert(rest@ == s@.skip(1));
        if let Some(h) = home {
            if rest.unicode_len() == 0 || text::strip_prefix(rest, "/").is_some() {
                proof {
                    if "/"@.is_prefix_of(rest@) {
                        assert("/"@[0] == rest@[0]);
                    }
                }
                return text::concat(h, rest);
            }
            proof {
                if rest@.len() > 0 && rest@[0] == '/' {
                    assert("/"@ =~= rest@.subrange(0, 1));
                }
            }
        }
    }
    s.to_string()
}

/// The directory above the daemon's configuration: `$XDG_CONFIG_HOME` when it is set and not empty,
/// else `$HOME/.config`.
pub fn config_base(xdg_config_home: Option<&str>, home: Option<&str>) -> (r: String)
    ensures
        r@ == (if xdg_config_home is Some && xdg_config_home->0@.len() > 0 {
            xdg_config_home->0@
        } else {
            expand_spec("$HOME/.config"@, None, opt_str(home))
        }),
{
    if let Some(x) = xdg_config_home {
        if x.unicode_len() > 0 {
            return x.to_string();
        }
    }
    expand_xdg("$HOME/.config", None, home)
}

/// The runtime directory, `/tmp` when it is unset.
pub fn runtime_dir(xdg_runtime_dir: Option<&str>) -> (r: String)
    ensures
        r@ == (match xdg_runtime_dir {
            Some(d) => d@,
            None => "/tmp"@,
        }),
{
    match xdg_runtime_dir {
        Some(d) => d.to_string(),
        None => "/tmp".to_string(),
    }
}

/// The default socket path, as written in a config file.
pub fn default_socket() -> (r: String)
    ensures
        r@ == "$XDG_RUNTIME_DIR/dynamicnoti.sock"@,
{
    "$XDG_RUNTIME_DIR/dynamicnoti.sock".to_string()
}

/// The default output.
pub fn default_monitor() -> (r: String)
    ensures
        r@ == "all"@,
{
    "all".to_string()
}

/// The default log verbosity.
pub fn default_log_level() -> (r: String)
    ensures
        r@ == "info"@,
{
    "info".to_string()
}

/// The default of `max_visible`.
pub fn one() -> (r: usize)
    ensures
        r == 1,
{
    1
}

/// The default of switches that start on.
pub fn tru() -> (r: bool)
    ensures
        r,
{
    true
}

/// The debounce of an `[sources.mpris]` table that names none, ms.
pub fn debounce_default() -> (r: u64)
    ensures
        r == 250,
{
    250
}

/// What a leading variable stands for takes its place, and what follows it stays: the runtime
/// directory, `/tmp` without one, and the home directory. Without a home directory its variable
/// stays as it is.
pub proof fn leading_variables_are_expanded(
    rest: Seq<char>,
    runtime_dir: Option<Seq<char>>,
    home: Option<Seq<char>>,
)
    ensures
        ({
            let s = "$XDG_RUNTIME_DIR"@ + rest;
            &&& runtime_dir is Some ==> expand_spec(s, runtime_dir, home) == runtime_dir->0 + rest
            &&& runtime_dir is None ==> expand_spec(s, runtime_dir, home) == "/tmp"@ + rest
        }),
        ({
            let s = "$HOME"@ + rest;
            &&& home is Some ==> expand_spec(s, runtime_dir, home) == home->0 + rest
            &&& home is None ==> expand_spec(s, runtime_dir, home) == s
        }),
        rest.len() == 0 || rest[0] == '/' ==> {
            let s = seq!['~'] + rest;
            &&& home is Some ==> expand_spec(s, runtime_dir, home) == home->0 + rest
            &&& home is None ==> expand_spec(s, runtime_dir, home) == s
        },
{
    reveal_strlit("$XDG_RUNTIME_DIR");
    reveal_strlit("$HOME");
    let x = "$XDG_RUNTIME_DIR"@ + rest;
    let h = "$HOME"@ + rest;
    let t = seq!['~'] + rest;
    assert("$XDG_RUNTIME_DIR"@ =~= x.subrange(0, "$XDG_RUNTIME_DIR"@.len() as int));
    assert(x.skip("$XDG_RUNTIME_DIR"@.len() as int) =~= rest);
    assert("$HOME"@ =~= h.subrange(0, "$HOME"@.len() as int));
    assert(h.skip("$HOME"@.len() as int) =~= rest);
    assert(t.skip(1) =~= rest);
    assert(h[1] == 'H' && "$XDG_RUNTIME_DIR"@[1] == 'X');
    assert(h[0] == '$' && t[0] == '~');
    if "$XDG_RUNTIME_DIR"@.is_prefix_of(h) {
        assert("$XDG_RUNTIME_DIR"@[1] == h[1]);
    }
    if "$XDG_RUNTIME_DIR"@.is_prefix_of(t) {
        assert("$XDG_RUNTIME_DIR"@[0] == t[0]);
    }
    if "$HOME"@.is_prefix_of(t) {
        assert("$HOME"@[0] == t[0]);
    }
}

/// A path that starts with none of the variables is left as it is, and a `~` before anything but a
/// `/` is none.
pub proof fn other_paths_stay(
    s: Seq<char>,
    runtime_dir: Option<Seq<char>>,
    home: Option<Seq<char>>,
)
    requires
        !"$XDG_RUNTIME_DIR"@.is_prefix_of(s),
        !"$HOME"@.is_prefix_of(s),
        s.len() == 0 || s[0] != '~' || (s.len() > 1 && s[1] != '/'),
    ensures
        expand_spec(s, runtime_dir, home) == s,
{
}

/// Without a configuration the daemon listens in the runtime directory, shows one notification at a
/// time, lets higher priorities preempt, collapses updates, serves the socket, follows no player,
/// and leaves the desktop's bus name alone.
pub proof fn defaults_are_modest(c: Config)
    requires
        is_default(c),
    ensures
        c.socket@ == "$XDG_RUNTIME_DIR/dynamicnoti.sock"@,
        c.monitor@ == "all"@,
        c.log_level@ == "info"@,
        c.queue.policy == QueuePolicy::PriorityPreempt,
        c.queue.max_visible == 1,
        c.queue.coalesce_replace,
        !c.sources.freedesktop.take_over,
        c.sources.freedesktop.replace_existing,
        c.sources.mpris.identities@.len() == 0,
        c.sources.mpris.suppress_freedesktop_from@.len() == 0,
        c.sources.mpris.debounce_ms == 0,
        c.sources.ipc.enabled,
{
}

/// The configuration lies in `$XDG_CONFIG_HOME` where that is set to something, and else in
/// `.config` in the home directory.
pub proof fn the_configuration_is_found(
    xdg: Option<&str>,
    home: Option<&str>,
    base: String,
    dir: Option<&str>,
    runtime: String,
)
    requires
        call_ensures(config_base, (xdg, home), base),
        call_ensures(runtime_dir, (dir,), runtime),
    ensures
        xdg is Some && xdg->0@.len() > 0 ==> base@ == xdg->0@,
        (xdg is None || xdg->0@.len() == 0) && home is Some ==> base@ == home->0@ + "/.config"@,
        (xdg is None || xdg->0@.len() == 0) && home is None ==> base@ == "$HOME/.config"@,
        dir is Some ==> runtime@ == dir->0@,
        dir is None ==> runtime@ == "/tmp"@,
{
    reveal_strlit("$HOME");
    reveal_strlit("/.config");
    reveal_strlit("$HOME/.config");
    assert("$HOME/.config"@ =~= "$HOME"@ + "/.config"@);
    leading_variables_are_expanded("/.config"@, None, opt_str(home));
}

} // verus!
