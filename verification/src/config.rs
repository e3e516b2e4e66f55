//! The configurations the binaries run under, converted from their parsed
//! TOML form.

use vstd::prelude::*;

use crate::cli::Verbosity;
use crate::log::{LogConfig, LogLevel};
use crate::message::CommandTable;
use crate::model::Schedules;
use crate::registry::NameMap;
use crate::text::u64_to_string;

verus! {

/// The tracing options of a configuration file.
#[derive(Clone, Debug)]
pub struct TracingConfig {
    /// Log the event target.
    pub target: bool,
    /// Log the thread id.
    pub thread_id: bool,
    /// Log thread names.
    pub thread_names: bool,
    /// Log line numbers.
    pub line_numbers: bool,
    /// The directory logs are written to.
    pub log_file_path: String,
    /// The log file name.
    pub log_file_name: String,
}

/// The server's configuration file, already parsed into plain values.
#[derive(Debug)]
pub struct TomlConfig {
    /// How many listener tasks to run.
    pub workers: u8,
    /// The address to listen on.
    pub ip: String,
    /// The port to listen on.
    pub port: u16,
    /// The TLS certificate file.
    pub cert_file_path: String,
    /// The TLS key file.
    pub key_file_path: String,
    /// The archive database location.
    pub db_url: String,
    /// The archive database user.
    pub db_user: String,
    /// The archive database password.
    pub db_pass: String,
    /// The archive database name.
    pub db_name: String,
    /// The tracing options, if any were given.
    pub tracing: Option<TracingConfig>,
    /// Known hosts, by group name.
    pub hostlist: NameMap<Vec<String>>,
    /// The commands every worker gets.
    pub default: CommandTable,
    /// Per-worker command overrides, by worker name.
    pub overrides: NameMap<CommandTable>,
    /// Per-worker schedules, by worker name.
    pub schedules: NameMap<Schedules>,
}

/// The server's effective configuration.
#[derive(Debug)]
pub struct Config {
    /// The quiet count from the command line.
    pub quiet: u8,
    /// The verbose count from the command line.
    pub verbose: u8,
    /// Where the configuration was read from.
    pub path: String,
    /// How many listener tasks to run.
    pub workers: u8,
    /// The address to listen on.
    pub ip: String,
    /// The port to listen on.
    pub port: u16,
    /// The TLS certificate file.
    pub cert_file_path: String,
    /// The TLS key file.
    pub key_file_path: String,
    /// The archive database location.
    pub db_url: String,
    /// The archive database user.
    pub db_user: String,
    /// The archive database password.
    pub db_pass: String,
    /// The archive database name.
    pub db_name: String,
    /// Log the event target.
    pub target: bool,
    /// Log the thread id.
    pub thread_id: bool,
    /// Log thread names.
    pub thread_names: bool,
    /// Log line numbers.
    pub line_numbers: bool,
    /// The effective tracing level, once initialized.
    pub level: Option<LogLevel>,
    /// The directory logs are written to.
    pub log_file_path: String,
    /// The log file name.
    pub log_file_name: String,
    /// Known hosts, by group name.
    pub hostlist: NameMap<Vec<String>>,
    /// The commands every worker gets.
    pub default: CommandTable,
    /// Per-worker command overrides, by worker name.
    pub overrides: NameMap<CommandTable>,
    /// Per-worker schedules, by worker name.
    pub schedules: NameMap<Schedules>,
}

impl Config {
    /// The tables the router reads are well formed.
    pub open spec fn wf(&self) -> bool {
        &&& self.default.wf()
        &&& self.overrides.wf()
        &&& self.schedules.wf()
        &&& self.hostlist.wf()
        &&& forall|t: int| 0 <= t < self.overrides@.len() ==> (#[trigger] self.overrides@[t]).1.wf()
    }

    /// Build the effective configuration from a parsed file.  Tracing
    /// options default to off, logging beside the binary.
    pub fn from_toml(t: TomlConfig) -> (r: Config)
        requires
            t.default.wf(),
            t.overrides.wf(),
            t.schedules.wf(),
            t.hostlist.wf(),
            forall|i: int| 0 <= i < t.overrides@.len() ==> (#[trigger] t.overrides@[i]).1.wf(),
        ensures
            r.wf(),
            r.quiet == 0,
            r.verbose == 0,
            r.path@ == Seq::<char>::empty(),
            r.workers == t.workers,
            r.ip == t.ip,
            r.port == t.port,
            r.cert_file_path == t.cert_file_path,
            r.key_file_path == t.key_file_path,
            r.db_url == t.db_url,
            r.db_user == t.db_user,
            r.db_pass == t.db_pass,
            r.db_name == t.db_name,
            r.level is None,
            t.tracing matches Some(tr) ==> r.target == tr.target && r.thread_id == tr.thread_id
                && r.thread_names == tr.thread_names && r.line_numbers == tr.line_numbers
                && r.log_file_path == tr.log_file_path && r.log_file_name == tr.log_file_name,
            t.tracing is None ==> !r.target && !r.thread_id && !r.thread_names && !r.line_numbers
                && r.log_file_path@ == "."@ && r.log_file_name@ == "puds.log"@,
            r.hostlist == t.hostlist,
            r.default == t.default,
            r.overrides == t.overrides,
            r.schedules == t.schedules,
    {
        let (target, thread_id, thread_names, line_numbers, log_file_path, log_file_name) =
            match t.tracing {
            Some(tr) => (
                tr.target,
                tr.thread_id,
                tr.thread_names,
                tr.line_numbers,
                tr.log_file_path,
                tr.log_file_name,
            ),
            None => (false, false, false, false, String::from_str("."), String::from_str("puds.log")),
        };
        Config {
            quiet: 0,
            verbose: 0,
            path: String::new(),
            workers: t.workers,
            ip: t.ip,
            port: t.port,
            cert_file_path: t.cert_file_path,
            key_file_path: t.key_file_path,
            db_url: t.db_url,
            db_user: t.db_user,
            db_pass: t.db_pass,
            db_name: t.db_name,
            target,
            thread_id,
            thread_names,
            line_numbers,
            level: None,
            log_file_path,
            log_file_name,
            hostlist: t.hostlist,
            default: t.default,
            overrides: t.overrides,
            schedules: t.schedules,
        }
    }
}

impl Verbosity for Config {
    open spec fn spec_quiet(&self) -> u8 {
        self.quiet
    }

    open spec fn spec_verbose(&self) -> u8 {
        self.verbose
    }

    fn set_quiet(&mut self, quiet: u8) {
        self.quiet = quiet;
    }

    fn set_verbose(&mut self, verbose: u8) {
        self.verbose = verbose;
    }
}

impl LogConfig for Config {
    fn quiet(&self) -> u8 {
        self.quiet
    }

    fn verbose(&self) -> u8 {
        self.verbose
    }

    fn target(&self) -> bool {
        self.target
    }

    fn thread_id(&self) -> bool {
        self.thread_id
    }

    fn thread_names(&self) -> bool {
        self.thread_names
    }

    fn line_numbers(&self) -> bool {
        self.line_numbers
    }

    fn level(&self) -> Option<LogLevel> {
        self.level
    }

    fn set_level(&mut self, level: LogLevel) {
        self.level = Some(level);
    }
}

/// A worker's effective configuration.
#[derive(Clone, Debug)]
pub struct WorkerConfig {
    /// The quiet count from the command line.
    pub quiet: u8,
    /// The verbose count from the command line.
    pub verbose: u8,
    /// Where the configuration was read from.
    pub path: String,
    /// How many times to try reconnecting.
    pub retry_count: u64,
    /// The server's address.
    pub server_addr: String,
    /// The server's port.
    pub server_port: u16,
    /// This worker's advisory name.
    pub name: String,
    /// The effective tracing level, once initialized.
    pub level: Option<LogLevel>,
    /// Log the event target.
    pub target: bool,
    /// Log the thread id.
    pub thread_id: bool,
    /// Log thread names.
    pub thread_names: bool,
    /// Log line numbers.
    pub line_numbers: bool,
}

impl WorkerConfig {
    /// The address a worker connects to.
    pub fn server_url(&self) -> (r: String)
        ensures
            r@ == "https://"@ + self.server_addr@ + ":"@ + crate::text::spec_dec_str(
                self.server_port as int,
            ) + "/v1/ws/worker?name="@ + self.name@,
    {
        let mut r = String::from_str("https://");
        r.append(self.server_addr.as_str());
        r.append(":");
        let port = u64_to_string(self.server_port as u64);
        r.append(port.as_str());
        r.append("/v1/ws/worker?name=");
        r.append(self.name.as_str());
        r
    }
}

impl Verbosity for WorkerConfig {
    open spec fn spec_quiet(&self) -> u8 {
        self.quiet
    }

    open spec fn spec_verbose(&self) -> u8 {
        self.verbose
    }

    fn set_quiet(&mut self, quiet: u8) {
        self.quiet = quiet;
    }

    fn set_verbose(&mut self, verbose: u8) {
        self.verbose = verbose;
    }
}

} // verus!
