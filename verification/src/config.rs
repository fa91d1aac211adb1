//! The host's settings: credentials, directories and log options.

use vstd::prelude::*;
use vstd::string::*;

verus! {

/// The directory, below the user's home, that holds the host's files when
/// the settings name no other place.
pub const CONFIG_FOLDER: &'static str = ".config/BEST-Bot";

/// The path that results from extending `base` by `path`, with `/` as the
/// separator: an absolute `path` replaces `base`; otherwise the two are put
/// together, with a separator between them unless `base` is empty or
/// already ends in one.
pub open spec fn joined(base: Seq<char>, path: Seq<char>) -> Seq<char> {
    if path.len() > 0 && path[0] == '/' {
        path
    } else if base.len() == 0 || base.last() == '/' {
        base + path
    } else {
        base + seq!['/'] + path
    }
}

/// Extends `base` by `path`.
pub fn join_path(base: &str, path: &str) -> (full: String)
    ensures
        full@ == joined(base@, path@),
{
    let base_len = base.unicode_len();
    let path_len = path.unicode_len();
    if path_len > 0 && path.get_char(0) == '/' {
        String::from_str(path)
    } else if base_len == 0 || base.get_char(base_len - 1) == '/' {
        String::from_str(base).concat(path)
    } else {
        proof {
            reveal_strlit("/");
            assert("/"@ =~= seq!['/']);
        }
        String::from_str(base).concat("/").concat(path)
    }
}

/// The verbosity levels of the host's log.
#[derive(Clone, Copy, Debug, PartialEq, Eq, Structural)]
pub enum LevelFilter {
    Off,
    Error,
    Warn,
    Info,
    Debug,
    Trace,
}

/// The upper-case form of `text`, as `str::to_uppercase` of the standard
/// library computes it.
pub uninterp spec fn uppercase_of(text: Seq<char>) -> Seq<char>;

/// Calls `str::to_uppercase`, which maps every character to its upper-case
/// form by the Unicode tables compiled into the standard library. The
/// contract gives that result a name and claims nothing else about it.
#[verifier::external_body]
fn to_uppercase(text: &str) -> (upper: String)
    ensures
        upper@ == uppercase_of(text@),
{
    text.to_uppercase()
}

impl LevelFilter {
    /// The level that an upper-case name stands for. A name that is none of
    /// the six level names stands for `Info`.
    pub open spec fn spec_from_upper(name: Seq<char>) -> LevelFilter {
        if name == "OFF"@ {
            LevelFilter::Off
        } else if name == "ERROR"@ {
            LevelFilter::Error
        } else if name == "WARN"@ {
            LevelFilter::Warn
        } else if name == "INFO"@ {
            LevelFilter::Info
        } else if name == "DEBUG"@ {
            LevelFilter::Debug
        } else if name == "TRACE"@ {
            LevelFilter::Trace
        } else {
            LevelFilter::Info
        }
    }

    /// The level that an upper-case name stands for.
    pub fn from_upper(name: &str) -> (level: LevelFilter)
        ensures
            level == Self::spec_from_upper(name@),
    {
        let name = String::from_str(name);
        if name == String::from_str("OFF") {
            LevelFilter::Off
        } else if name == String::from_str("ERROR") {
            LevelFilter::Error
        } else if name == String::from_str("WARN") {
            LevelFilter::Warn
        } else if name == String::from_str("INFO") {
            LevelFilter::Info
        } else if name == String::from_str("DEBUG") {
            LevelFilter::Debug
        } else if name == String::from_str("TRACE") {
            LevelFilter::Trace
        } else {
            LevelFilter::Info
        }
    }

    /// The level that a name stands for, whatever its letter case.
    pub open spec fn spec_from_name(name: Seq<char>) -> LevelFilter {
        Self::spec_from_upper(uppercase_of(name))
    }

    /// The level that a name stands for, whatever its letter case.
    pub fn from_name(name: &str) -> (level: LevelFilter)
        ensures
            level == Self::spec_from_name(name@),
    {
        let upper = to_uppercase(name);
        Self::from_upper(upper.as_str())
    }
}

/// A copy of an optional text.
pub fn clone_text(text: &Option<String>) -> (copy: Option<String>)
    ensures
        copy == *text,
{
    match text {
        Some(t) => Some(t.clone()),
        None => None,
    }
}

/// The log options.
#[derive(Debug, PartialEq, Eq)]
pub struct Log {
    /// The name of the verbosity level, in any letter case.
    pub level: Option<String>,
    /// Whether records go to the log file.
    pub to_file: Option<bool>,
    /// Whether records go to the terminal.
    pub to_terminal: Option<bool>,
    /// The directory for the log file, relative to the home directory.
    pub log_path: Option<String>,
}

/// What a [`Log`] holds, as plain values.
pub struct LogView {
    pub level: Option<Seq<char>>,
    pub to_file: Option<bool>,
    pub to_terminal: Option<bool>,
    pub log_path: Option<Seq<char>>,
}

impl View for Log {
    type V = LogView;

    open spec fn view(&self) -> LogView {
        LogView {
            level: self.level.deep_view(),
            to_file: self.to_file,
            to_terminal: self.to_terminal,
            log_path: self.log_path.deep_view(),
        }
    }
}

impl LogView {
    /// The verbosity to log at: the named level, or `Info` without a name.
    pub open spec fn level(self) -> LevelFilter {
        match self.level {
            Some(name) => LevelFilter::spec_from_name(name),
            None => LevelFilter::Info,
        }
    }

    /// The directory for the log file under the home directory `home`.
    pub open spec fn path(self, home: Seq<char>) -> Seq<char> {
        match self.log_path {
            Some(path) => joined(home, path),
            None => joined(joined(home, CONFIG_FOLDER@), "log"@),
        }
    }
}

impl Log {
    pub fn new(
        level: Option<String>,
        to_file: Option<bool>,
        to_terminal: Option<bool>,
        log_path: Option<String>,
    ) -> (log: Log)
        ensures
            log@ == (LogView {
                level: level.deep_view(),
                to_file,
                to_terminal,
                log_path: log_path.deep_view(),
            }),
    {
        Log { level, to_file, to_terminal, log_path }
    }

    /// A copy of these options.
    pub fn duplicate(&self) -> (copy: Log)
        ensures
            copy == *self,
    {
        Log {
            level: clone_text(&self.level),
            to_file: self.to_file,
            to_terminal: self.to_terminal,
            log_path: clone_text(&self.log_path),
        }
    }

    /// The verbosity to log at.
    pub fn level(&self) -> (level: LevelFilter)
        ensures
            level == self@.level(),
    {
        match &self.level {
            Some(name) => LevelFilter::from_name(name.as_str()),
            None => LevelFilter::Info,
        }
    }

    /// Whether records go to the log file; off unless switched on.
    pub fn to_file(&self) -> (on: bool)
        ensures
            on == (self@.to_file == Some(true)),
    {
        match self.to_file {
            Some(on) => on,
            None => false,
        }
    }

    /// Whether records go to the terminal; on unless switched off.
    pub fn to_terminal(&self) -> (on: bool)
        ensures
            on == (self@.to_terminal != Some(false)),
    {
        match self.to_terminal {
            Some(on) => on,
            None => true,
        }
    }

    /// The directory for the log file under the home directory `home`.
    pub fn path(&self, home: &str) -> (path: String)
        ensures
            path@ == self@.path(home@),
    {
        match &self.log_path {
            Some(path) => join_path(home, path.as_str()),
            None => {
                let dir = join_path(home, CONFIG_FOLDER);
                join_path(dir.as_str(), "log")
            },
        }
    }
}

/// The credentials for the chat service.
#[derive(Debug, PartialEq, Eq)]
pub struct Slack {
    /// The token the bot itself acts with.
    pub api_token: String,
    /// The token of a user with administrator rights.
    pub admin_api_token: String,
    /// The token for incoming webhooks, if that integration is set up.
    pub incoming_webhooks_token: Option<String>,
    /// The token for outgoing webhooks, if that integration is set up.
    pub outgoing_webhooks_token: Option<String>,
}

/// What a [`Slack`] holds, as plain values.
pub struct SlackView {
    pub api_token: Seq<char>,
    pub admin_api_token: Seq<char>,
    pub incoming_webhooks_token: Option<Seq<char>>,
    pub outgoing_webhooks_token: Option<Seq<char>>,
}

impl View for Slack {
    type V = SlackView;

    open spec fn view(&self) -> SlackView {
        SlackView {
            api_token: self.api_token@,
            admin_api_token: self.admin_api_token@,
            incoming_webhooks_token: self.incoming_webhooks_token.deep_view(),
            outgoing_webhooks_token: self.outgoing_webhooks_token.deep_view(),
        }
    }
}

impl Slack {
    /// A copy of these credentials.
    pub fn duplicate(&self) -> (copy: Slack)
        ensures
            copy == *self,
    {
        Slack {
            api_token: self.api_token.clone(),
            admin_api_token: self.admin_api_token.clone(),
            incoming_webhooks_token: clone_text(&self.incoming_webhooks_token),
            outgoing_webhooks_token: clone_text(&self.outgoing_webhooks_token),
        }
    }
}

/// The settings as the settings file gives them.
#[derive(Debug, PartialEq, Eq)]
pub struct Config {
    /// The directory that is searched for plugin modules, relative to the
    /// home directory.
    pub plugin_path: Option<String>,
    /// The directory in which plugins keep their own settings, relative to
    /// the home directory.
    pub plugin_config_path: Option<String>,
    /// The credentials for the chat service.
    pub slack: Slack,
    /// The log options.
    pub log: Option<Log>,
}

/// What a [`Config`] holds, as plain values.
pub struct ConfigView {
    pub plugin_path: Option<Seq<char>>,
    pub plugin_config_path: Option<Seq<char>>,
    pub slack: SlackView,
    pub log: Option<LogView>,
}

impl View for Config {
    type V = ConfigView;

    open spec fn view(&self) -> ConfigView {
        ConfigView {
            plugin_path: self.plugin_path.deep_view(),
            plugin_config_path: self.plugin_config_path.deep_view(),
            slack: self.slack@,
            log: match self.log {
                Some(log) => Some(log@),
                None => None,
            },
        }
    }
}

/// The log options of the settings template.
pub open spec fn log_template() -> LogView {
    LogView {
        level: Some("info"@),
        to_file: Some(false),
        to_terminal: Some(true),
        log_path: None,
    }
}

/// The settings template: what a newly written settings file holds.
pub open spec fn template() -> ConfigView {
    ConfigView {
        plugin_path: Some(CONFIG_FOLDER@ + "/libs"@),
        plugin_config_path: Some(CONFIG_FOLDER@ + "/plugins"@),
        slack: SlackView {
            api_token: "zzzz-xxxxxxxxxxxx-yyyyyyyyyyyyyyyyyyyyyyyy"@,
            admin_api_token:
                "zzzz-xxxxxxxxxxx-yyyyyyyyyyy-aaaaaaaaaaaa-bbbbbbbbbbbbbbbbbbbbbbbbbbbbbbbb"@,
            incoming_webhooks_token: None,
            outgoing_webhooks_token: None,
        },
        log: Some(log_template()),
    }
}

/// The settings template: what a newly written settings file holds.
pub fn config_template() -> (config: Config)
    ensures
        config@ == template(),
{
    Config {
        plugin_path: Some(String::from_str(CONFIG_FOLDER).concat("/libs")),
        plugin_config_path: Some(String::from_str(CONFIG_FOLDER).concat("/plugins")),
        slack: Slack {
            api_token: String::from_str("zzzz-xxxxxxxxxxxx-yyyyyyyyyyyyyyyyyyyyyyyy"),
            admin_api_token: String::from_str(
                "zzzz-xxxxxxxxxxx-yyyyyyyyyyy-aaaaaaaaaaaa-bbbbbbbbbbbbbbbbbbbbbbbbbbbbbbbb",
            ),
            incoming_webhooks_token: None,
            outgoing_webhooks_token: None,
        },
        log: Some(Log::new(Some(String::from_str("info")), Some(false), Some(true), None)),
    }
}

impl ConfigView {
    /// The directory that is searched for plugin modules.
    pub open spec fn plugin_path(self, home: Seq<char>) -> Seq<char> {
        match self.plugin_path {
            Some(path) => joined(home, path),
            None => joined(joined(home, CONFIG_FOLDER@), "libs"@),
        }
    }

    /// The directory in which plugins keep their own settings.
    pub open spec fn plugin_config_path(self, home: Seq<char>) -> Seq<char> {
        match self.plugin_config_path {
            Some(path) => joined(home, path),
            None => joined(joined(home, CONFIG_FOLDER@), "plugins"@),
        }
    }

    /// The log options in force: those given, else those of the template.
    pub open spec fn log(self) -> LogView {
        match self.log {
            Some(log) => log,
            None => log_template(),
        }
    }
}

impl Config {
    pub fn new(
        plugin_path: Option<String>,
        plugin_config_path: Option<String>,
        slack: Slack,
        log: Option<Log>,
    ) -> (config: Config)
        ensures
            config@ == (ConfigView {
                plugin_path: plugin_path.deep_view(),
                plugin_config_path: plugin_config_path.deep_view(),
                slack: slack@,
                log: match log {
                    Some(log) => Some(log@),
                    None => None,
                },
            }),
            config.slack == slack,
    {
        Config { plugin_path, plugin_config_path, slack, log }
    }

    /// The directory that is searched for plugin modules, for a user whose
    /// home directory is `home`.
    pub fn plugin_path(&self, home: &str) -> (path: String)
        ensures
            path@ == self@.plugin_path(home@),
    {
        match &self.plugin_path {
            Some(path) => join_path(home, path.as_str()),
            None => {
                let dir = join_path(home, CONFIG_FOLDER);
                join_path(dir.as_str(), "libs")
            },
        }
    }

    /// The directory in which plugins keep their own settings, for a user
    /// whose home directory is `home`.
    pub fn plugin_config_path(&self, home: &str) -> (path: String)
        ensures
            path@ == self@.plugin_config_path(home@),
    {
        match &self.plugin_config_path {
            Some(path) => join_path(home, path.as_str()),
            None => {
                let dir = join_path(home, CONFIG_FOLDER);
                join_path(dir.as_str(), "plugins")
            },
        }
    }

    /// The log options in force: those given, else those of the template.
    pub fn log(&self) -> (log: Log)
        ensures
            log@ == self@.log(),
    {
        match &self.log {
            Some(log) => log.duplicate(),
            None => Log::new(Some(String::from_str("info")), Some(false), Some(true), None),
        }
    }
}

/// The directory that holds the settings file, for a user whose home
/// directory is `home`.
pub fn path_config_dir(home: &str) -> (path: String)
    ensures
        path@ == joined(home@, CONFIG_FOLDER@),
{
    join_path(home, CONFIG_FOLDER)
}

/// The place of the settings file `filename`, for a user whose home
/// directory is `home`.
pub fn path_config_file(home: &str, filename: &str) -> (path: String)
    ensures
        path@ == joined(joined(home@, CONFIG_FOLDER@), filename@),
{
    let dir = path_config_dir(home);
    join_path(dir.as_str(), filename)
}

/// The secrets and the one directory that the host hands to plugins.
///
/// A store is built once at startup and never changed afterwards: nothing
/// in this crate takes it by mutable reference.
#[derive(Debug, PartialEq, Eq)]
pub struct SecretStore {
    slack: Slack,
    plugin_config_path: String,
}

/// What a [`SecretStore`] holds, as plain values.
pub struct SecretStoreView {
    pub slack: SlackView,
    pub plugin_config_path: Seq<char>,
}

impl View for SecretStore {
    type V = SecretStoreView;

    closed spec fn view(&self) -> SecretStoreView {
        SecretStoreView { slack: self.slack@, plugin_config_path: self.plugin_config_path@ }
    }
}

impl SecretStore {
    pub fn new(slack: Slack, plugin_config_path: String) -> (store: SecretStore)
        ensures
            store@ == (SecretStoreView {
                slack: slack@,
                plugin_config_path: plugin_config_path@,
            }),
    {
        SecretStore { slack, plugin_config_path }
    }

    /// The credentials for the chat service.
    pub fn slack(&self) -> (slack: &Slack)
        ensures
            slack@ == self@.slack,
    {
        &self.slack
    }

    /// The directory in which plugins keep their own settings.
    pub fn plugin_config_path(&self) -> (path: &String)
        ensures
            path@ == self@.plugin_config_path,
    {
        &self.plugin_config_path
    }
}

impl Config {
    /// The secret store for a host that runs with these settings for a user
    /// whose home directory is `home`.
    pub fn secrets(&self, home: &str) -> (store: SecretStore)
        ensures
            store@ == (SecretStoreView {
                slack: self@.slack,
                plugin_config_path: self@.plugin_config_path(home@),
            }),
    {
        SecretStore::new(self.slack.duplicate(), self.plugin_config_path(home))
    }
}

} // verus!
