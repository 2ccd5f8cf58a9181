//! The configuration: services, their transport, environment, secrets and
//! AWS settings, with the lookups and fallbacks the commands use, and the
//! decisions taken while loading the file.
use vstd::prelude::*;
use crate::strmap::{keys_sorted, StrMap};
use crate::text::{join2, owned, views};

verus! {

/// How a service's MCP server talks: over HTTP (SSE) or over stdin/stdout.
#[derive(Clone, Copy, Debug, PartialEq, Eq, Structural)]
pub enum Transport {
    Sse,
    Stdio,
}

impl Default for Transport {
    /// A service without `transport` uses SSE.
    fn default() -> (t: Transport)
        ensures
            t == Transport::Sse,
    {
        Transport::Sse
    }
}

/// Settings that services fall back to.
pub struct Defaults {
    pub aws_region: String,
    pub aws_profile: String,
}

/// One service of the configuration.
pub struct ServiceConfig {
    pub image: String,
    pub transport: Transport,
    pub container_port: Option<u16>,
    pub env: StrMap<String>,
    pub secrets: StrMap<String>,
    pub aws_profile: Option<String>,
    pub aws_region: Option<String>,
    pub command: Vec<String>,
}

/// The whole configuration.
pub struct Config {
    pub defaults: Defaults,
    pub services: StrMap<ServiceConfig>,
}

/// What can go wrong while loading or using the configuration. The payloads
/// are the path, the reader's or parser's message, or the service name.
#[derive(Debug)]
pub enum ConfigError {
    NotFound(String),
    Read(String),
    Parse(String),
    UnknownService(String),
}

/// The text shown for an error.
pub open spec fn config_error_text(e: ConfigError) -> Seq<char> {
    match e {
        ConfigError::NotFound(p) => "config file not found: "@ + p@,
        ConfigError::Read(m) => "failed to read config: "@ + m@,
        ConfigError::Parse(m) => "failed to parse config: "@ + m@,
        ConfigError::UnknownService(s) => "unknown service: "@ + s@,
    }
}

impl ConfigError {
    /// The text shown for this error.
    pub fn message(&self) -> (m: String)
        ensures
            m@ == config_error_text(*self),
    {
        match self {
            ConfigError::NotFound(p) => join2("config file not found: ", p.as_str()),
            ConfigError::Read(m) => join2("failed to read config: ", m.as_str()),
            ConfigError::Parse(m) => join2("failed to parse config: ", m.as_str()),
            ConfigError::UnknownService(s) => join2("unknown service: ", s.as_str()),
        }
    }
}

/// The AWS profile for `service`: its own, else the default.
pub open spec fn profile_of(defaults: Defaults, service: ServiceConfig) -> Seq<char> {
    match service.aws_profile {
        Some(p) => p@,
        None => defaults.aws_profile@,
    }
}

/// The AWS region for `service`: its own, else the default.
pub open spec fn region_of(defaults: Defaults, service: ServiceConfig) -> Seq<char> {
    match service.aws_region {
        Some(r) => r@,
        None => defaults.aws_region@,
    }
}

impl Config {
    /// The service called `name`.
    pub fn service(&self, name: &str) -> (r: Result<&ServiceConfig, ConfigError>)
        ensures
            r is Ok == self.services.as_map().contains_key(name@),
            r is Ok ==> *r->Ok_0 == self.services.as_map()[name@],
            r is Err ==> (r->Err_0 matches ConfigError::UnknownService(n) && n@ == name@),
    {
        match self.services.get(name) {
            Some(s) => Ok(s),
            None => Err(ConfigError::UnknownService(owned(name))),
        }
    }

    /// The names of the configured services, in key order.
    pub fn service_names(&self) -> (names: Vec<String>)
        ensures
            views(names@) == self.services.keys(),
            keys_sorted(self.services.entries()),
    {
        let n = self.services.len();
        let mut names: Vec<String> = Vec::new();
        let mut i: usize = 0;
        while i < n
            invariant
                n == self.services.entries().len(),
                i <= n,
                views(names@) == self.services.keys().take(i as int),
            decreases n - i,
        {
            let ghost before = names@;
            names.push(self.services.key_at(i).clone());
            assert(views(names@) =~= views(before).push(self.services.keys()[i as int]));
            assert(self.services.keys().take(i + 1) =~= self.services.keys().take(i as int).push(
                self.services.keys()[i as int],
            ));
            i = i + 1;
        }
        assert(self.services.keys().take(n as int) =~= self.services.keys());
        names
    }

    /// The AWS profile for `service`: its own if it names one, else the default.
    pub fn aws_profile<'a>(&'a self, service: &'a ServiceConfig) -> (p: &'a str)
        ensures
            p@ == profile_of(self.defaults, *service),
    {
        match &service.aws_profile {
            Some(p) => p.as_str(),
            None => self.defaults.aws_profile.as_str(),
        }
    }

    /// The AWS region for `service`: its own if it names one, else the default.
    pub fn aws_region<'a>(&'a self, service: &'a ServiceConfig) -> (r: &'a str)
        ensures
            r@ == region_of(self.defaults, *service),
    {
        match &service.aws_region {
            Some(r) => r.as_str(),
            None => self.defaults.aws_region.as_str(),
        }
    }
}

/// Where the configuration file lives, relative to the home directory.
pub open spec fn config_in_home() -> Seq<char> {
    ".config/mcpfile/config.toml"@
}

/// `base` joined with the relative path `rel`, as `Path::join` joins them: a
/// `/` goes between unless `base` is empty or already ends with one.
pub open spec fn join_path(base: Seq<char>, rel: Seq<char>) -> Seq<char> {
    if base.len() == 0 || base.last() == '/' {
        base + rel
    } else {
        base + seq!['/'] + rel
    }
}

/// The file to load: the one given, else `$MCPFILE_CONFIG`, else
/// `$HOME/.config/mcpfile/config.toml`; with neither variable set, the
/// file is not found.
pub open spec fn config_path_choice(
    given: Option<Seq<char>>,
    env_config: Option<Seq<char>>,
    home: Option<Seq<char>>,
) -> Result<Seq<char>, Seq<char>> {
    match given {
        Some(p) => Ok(p),
        None => match env_config {
            Some(p) => Ok(p),
            None => match home {
                Some(h) => Ok(join_path(h, config_in_home())),
                None => Err("~/.config/mcpfile/config.toml"@),
            },
        },
    }
}

/// The view of an optional string.
pub open spec fn opt_view(o: Option<String>) -> Option<Seq<char>> {
    match o {
        Some(s) => Some(s@),
        None => None,
    }
}

/// `base` joined with `rel` as `Path::join` does for a relative `rel`.
pub fn join_relative(base: &str, rel: &str) -> (out: String)
    ensures
        out@ == join_path(base@, rel@),
{
    let chars = crate::text::chars_of(base);
    proof {
        reveal_strlit("/");
    }
    if chars.len() == 0 || chars[chars.len() - 1] == '/' {
        join2(base, rel)
    } else {
        crate::text::join3(base, "/", rel)
    }
}

/// Chooses the configuration file as `Config::load` does, from the path given
/// on the command line and the values of `MCPFILE_CONFIG` and `HOME` (a
/// variable that is unset or not valid Unicode counts as unset).
pub fn resolve_config_path(
    given: Option<String>,
    env_config: Option<String>,
    home: Option<String>,
) -> (r: Result<String, ConfigError>)
    ensures
        match config_path_choice(opt_view(given), opt_view(env_config), opt_view(home)) {
            Ok(p) => r is Ok && r->Ok_0@ == p,
            Err(p) => r is Err && (r->Err_0 matches ConfigError::NotFound(q) && q@ == p),
        },
{
    proof {
        reveal_strlit(".config/mcpfile/config.toml");
        reveal_strlit("~/.config/mcpfile/config.toml");
    }
    match given {
        Some(p) => Ok(p),
        None => match env_config {
            Some(p) => Ok(p),
            None => match home {
                Some(h) => Ok(join_relative(h.as_str(), ".config/mcpfile/config.toml")),
                None => Err(ConfigError::NotFound(owned("~/.config/mcpfile/config.toml"))),
            },
        },
    }
}

/// The steps of loading the configuration file; the file system and the
/// parser are driven by the caller.
pub enum LoadStep {
    /// Find out whether this file exists.
    CheckExists(String),
    /// Read this file.
    ReadFile(String),
    /// Parse these contents.
    Parse(String),
    /// Loading has ended with this outcome.
    Finish(Result<Config, ConfigError>),
}

/// What the caller found out for the last step.
pub enum LoadEvent {
    Exists(bool),
    FileRead(Result<String, String>),
    Parsed(Result<Config, String>),
}

/// Where a load stands.
#[derive(Clone, Copy, Debug, PartialEq, Eq, Structural)]
pub enum LoadPhase {
    Checking,
    Reading,
    Parsing,
    Finished,
}

/// Loading of a configuration file: first whether it exists, then its
/// contents, then the parse; each failure ends the load with its error.
pub struct ConfigLoader {
    path: String,
    phase: LoadPhase,
}

impl ConfigLoader {
    pub closed spec fn phase(&self) -> LoadPhase {
        self.phase
    }

    pub closed spec fn path(&self) -> Seq<char> {
        self.path@
    }

    /// The event that the current step expects.
    pub open spec fn expects(&self, e: LoadEvent) -> bool {
        match self.phase() {
            LoadPhase::Checking => e is Exists,
            LoadPhase::Reading => e is FileRead,
            LoadPhase::Parsing => e is Parsed,
            LoadPhase::Finished => false,
        }
    }

    /// Starts loading `path`; the first step checks that it exists.
    pub fn start(path: String) -> (r: (ConfigLoader, LoadStep))
        ensures
            r.0.phase() == LoadPhase::Checking,
            r.0.path() == path@,
            (r.1 matches LoadStep::CheckExists(p) && p@ == path@),
    {
        let p = path.clone();
        (ConfigLoader { path, phase: LoadPhase::Checking }, LoadStep::CheckExists(p))
    }

    /// The next step, given what the caller found out for the last one.
    pub fn step(&mut self, event: LoadEvent) -> (s: LoadStep)
        requires
            old(self).expects(event),
        ensures
            final(self).path() == old(self).path(),
            match event {
                LoadEvent::Exists(true) => final(self).phase() == LoadPhase::Reading && (s matches LoadStep::ReadFile(p)
                    && p@ == old(self).path()),
                LoadEvent::Exists(false) => final(self).phase() == LoadPhase::Finished && (s matches LoadStep::Finish(
                    Err(ConfigError::NotFound(p)),
                ) && p@ == old(self).path()),
                LoadEvent::FileRead(Ok(text)) => final(self).phase() == LoadPhase::Parsing && (s matches LoadStep::Parse(t)
                    && t@ == text@),
                LoadEvent::FileRead(Err(m)) => final(self).phase() == LoadPhase::Finished && (s matches LoadStep::Finish(
                    Err(ConfigError::Read(n)),
                ) && n@ == m@),
                LoadEvent::Parsed(Ok(c)) => final(self).phase() == LoadPhase::Finished && (s matches LoadStep::Finish(
                    Ok(d),
                ) && d == c),
                LoadEvent::Parsed(Err(m)) => final(self).phase() == LoadPhase::Finished && (s matches LoadStep::Finish(
                    Err(ConfigError::Parse(n)),
                ) && n@ == m@),
            },
    {
        match event {
            LoadEvent::Exists(true) => {
                self.phase = LoadPhase::Reading;
                LoadStep::ReadFile(self.path.clone())
            },
            LoadEvent::Exists(false) => {
                self.phase = LoadPhase::Finished;
                LoadStep::Finish(Err(ConfigError::NotFound(self.path.clone())))
            },
            LoadEvent::FileRead(Ok(text)) => {
                self.phase = LoadPhase::Parsing;
                LoadStep::Parse(text)
            },
            LoadEvent::FileRead(Err(m)) => {
                self.phase = LoadPhase::Finished;
                LoadStep::Finish(Err(ConfigError::Read(m)))
            },
            LoadEvent::Parsed(Ok(c)) => {
                self.phase = LoadPhase::Finished;
                LoadStep::Finish(Ok(c))
            },
            LoadEvent::Parsed(Err(m)) => {
                self.phase = LoadPhase::Finished;
                LoadStep::Finish(Err(ConfigError::Parse(m)))
            },
        }
    }
}

} // verus!
