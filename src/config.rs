//! The declarative configuration and the command-line options that override it.
use vstd::prelude::*;
use vstd::string::StringExecFns;

use crate::converter::ConverterSettings;

verus! {

/// Settings of the control API.
#[derive(Debug)]
pub struct Api {
    pub enabled: bool,
    /// `host:port` to listen on.
    pub address: String,
}

/// `127.0.0.1:9888`.
pub open spec fn default_api_address() -> Seq<char> {
    seq!['1', '2', '7', '.', '0', '.', '0', '.', '1', ':', '9', '8', '8', '8']
}

impl Default for Api {
    fn default() -> (r: Self)
        ensures
            r.enabled,
            r.address@ == default_api_address(),
    {
        let a = "127.0.0.1:9888";
        proof {
            reveal_strlit("127.0.0.1:9888");
        }
        assert(a@ =~= default_api_address());
        Api { enabled: true, address: String::from_str(a) }
    }
}

/// A declared topic source.
#[derive(Debug)]
pub struct TopicSource {
    pub topic: String,
    /// The declared message type, as `<package>/msg/<name>` or `<package>/<name>`.
    pub ros_type: Option<String>,
    pub archetype: String,
    /// Further settings, handed to the converter.
    pub converter: ConverterSettings,
}

/// A declared streaming sink.
#[derive(Debug)]
pub struct StreamConfig {
    /// Names of the topic sources that feed the sink, in order.
    pub inputs: Vec<String>,
    pub url: String,
}

/// The declaration of the archival sink.
#[derive(Debug)]
pub struct DBConfig {
    pub enabled: Option<bool>,
    pub data_dir: String,
    pub inputs: Vec<String>,
}

/// Why configuration could not be loaded.
#[derive(Debug)]
pub enum ConfigError {
    NotFound,
    Validation(String),
    Io(String),
    Toml(String),
    TomlSe(String),
}

impl DBConfig {
    /// An archival sink with no inputs that stores into the current directory.
    pub fn new() -> (r: Self)
        ensures
            r.enabled is None,
            r.data_dir@.len() == 0,
            r.inputs@.len() == 0,
    {
        DBConfig { enabled: None, data_dir: String::new(), inputs: Vec::new() }
    }

    /// Checks the declaration, given whether `data_dir` names a directory.
    ///
    /// A disabled sink is always valid; an enabled one needs its directory.
    pub fn validate(&self, data_dir_is_dir: bool) -> (r: Result<(), ConfigError>)
        ensures
            r is Ok <==> (self.enabled == Some(false) || data_dir_is_dir),
            r is Err ==> r->Err_0 is Validation,
    {
        match self.enabled {
            Some(false) => Ok(()),
            _ => if data_dir_is_dir {
                Ok(())
            } else {
                Err(ConfigError::Validation(String::from_str("DB data directory must be a valid directory")))
            },
        }
    }
}

/// The whole declarative configuration.
#[derive(Debug)]
pub struct Config {
    pub api: Api,
    /// Topic sources keyed by name, in strictly increasing order of name, as a
    /// map keyed by name is walked; compiling a topology requires this order.
    pub topics: Vec<(String, TopicSource)>,
    /// Streaming sinks keyed by name, in strictly increasing order of name, as
    /// a map keyed by name is walked; compiling a topology requires this order.
    pub streams: Vec<(String, StreamConfig)>,
    pub db: DBConfig,
    /// The files the configuration was read from.
    pub config_paths: Vec<String>,
}

impl Config {
    /// An empty configuration with default API settings.
    pub fn new() -> (r: Self)
        ensures
            r.api.enabled,
            r.api.address@ == default_api_address(),
            r.topics@.len() == 0,
            r.streams@.len() == 0,
            r.db.enabled is None,
            r.db.inputs@.len() == 0,
            r.config_paths@.len() == 0,
    {
        Config { api: Api::default(), topics: Vec::new(), streams: Vec::new(), db: DBConfig::new(), config_paths: Vec::new() }
    }

    pub fn topics(&self) -> (r: &Vec<(String, TopicSource)>)
        ensures
            r == self.topics,
    {
        &self.topics
    }

    pub fn streams(&self) -> (r: &Vec<(String, StreamConfig)>)
        ensures
            r == self.streams,
    {
        &self.streams
    }
}

/// How verbose logging is.
#[derive(Debug, Clone, Copy, PartialEq, Eq, Structural)]
pub enum LogLevel {
    Off,
    Error,
    Warn,
    Info,
    Debug,
    Trace,
}

/// Options of the `configure` subcommand.
#[derive(Debug)]
pub struct ConfigureOptions {
    pub config: Option<String>,
}

/// Subcommands of the executable.
#[derive(Debug)]
pub enum Subcommands {
    Configure(ConfigureOptions),
}

/// Command-line options.
#[derive(Debug)]
pub struct Options {
    /// Path to the configuration file.
    pub config: Option<String>,
    pub log_level: LogLevel,
    /// Listen address of the control API.
    pub listen: Option<String>,
    pub subcommands: Option<Subcommands>,
}

/// `config.toml`.
pub open spec fn default_config_file() -> Seq<char> {
    seq!['c', 'o', 'n', 'f', 'i', 'g', '.', 't', 'o', 'm', 'l']
}

impl Options {
    /// Applies the options that override the configuration file.
    pub fn override_config(&self, config: &mut Config)
        ensures
            match self.listen {
                Some(l) => *final(config) == (Config { api: Api { address: l, ..old(config).api }, ..*old(config) }),
                None => *final(config) == *old(config),
            },
    {
        if let Some(listen) = &self.listen {
            config.api.address = listen.clone();
        }
    }
}

/// Chooses the configuration file: the `--config` path when it names a file,
/// else `config.toml` in the current directory when that is a file.
pub fn load(options: &Options, config_is_file: bool, default_is_file: bool) -> (r: Result<String, ConfigError>)
    ensures
        match options.config {
            Some(p) if config_is_file => r is Ok && r->Ok_0@ == p@,
            _ => if default_is_file {
                r is Ok && r->Ok_0@ == default_config_file()
            } else {
                r is Err && r->Err_0 is NotFound
            },
        },
{
    match &options.config {
        Some(p) if config_is_file => Ok(p.clone()),
        _ => if default_is_file {
            let d = "config.toml";
            proof {
                reveal_strlit("config.toml");
            }
            assert(d@ =~= default_config_file());
            Ok(String::from_str(d))
        } else {
            Err(ConfigError::NotFound)
        },
    }
}

/// Checks a configuration that was just read, given whether the archival
/// sink's directory exists.
pub fn validate_config(config: &Config, data_dir_is_dir: bool) -> (r: Result<(), ConfigError>)
    ensures
        r is Ok <==> (config.db.enabled == Some(false) || data_dir_is_dir),
{
    config.db.validate(data_dir_is_dir)
}

/// Finishes loading: records where the configuration came from and applies
/// the command-line overrides.
pub fn finish_load(config: &mut Config, options: &Options, path: String)
    ensures
        final(config).config_paths@ == old(config).config_paths@.push(path),
        final(config).topics == old(config).topics,
        final(config).streams == old(config).streams,
        final(config).db == old(config).db,
        final(config).api.enabled == old(config).api.enabled,
        final(config).api.address == match options.listen {
            Some(l) => l,
            None => old(config).api.address,
        },
{
    config.config_paths.push(path);
    options.override_config(config);
}

} // verus!
