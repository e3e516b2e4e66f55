//! The command-line options the binaries share, and the rule that picks the
//! configuration file path.

use vstd::prelude::*;

use crate::error::Error;
use crate::dirs::config_dir;

verus! {

/// The command-line options every binary accepts.
#[derive(Clone, Debug)]
pub struct Cli {
    /// How many times verbose logging was asked for.
    pub verbose: u8,
    /// How many times quiet logging was asked for.
    pub quiet: u8,
    /// Validate the configuration and exit without running.
    pub dry_run: bool,
    /// An explicit configuration file path, overriding the default.
    pub config_file_path: Option<String>,
}

impl Cli {
    /// Wrap parsed command-line options.
    pub fn new(verbose: u8, quiet: u8, dry_run: bool, config_file_path: Option<String>) -> (r: Cli)
        ensures
            r == (Cli { verbose, quiet, dry_run, config_file_path }),
    {
        Cli { verbose, quiet, dry_run, config_file_path }
    }

    /// The verbose count.
    pub fn verbose(&self) -> (r: &u8)
        ensures
            r == self.verbose,
    {
        &self.verbose
    }

    /// The quiet count.
    pub fn quiet(&self) -> (r: &u8)
        ensures
            r == self.quiet,
    {
        &self.quiet
    }

    /// Is this a configuration dry run?
    pub fn dry_run(&self) -> (r: &bool)
        ensures
            r == self.dry_run,
    {
        &self.dry_run
    }

    /// The explicit configuration file path, if one was given.
    pub fn config_file_path(&self) -> (r: &Option<String>)
        ensures
            r == self.config_file_path,
    {
        &self.config_file_path
    }

    /// The explicit configuration file path, as a spec value.
    pub open spec fn spec_config_file_path(&self) -> Option<String> {
        self.config_file_path
    }
}

/// Can store verbosity information.
pub trait Verbosity {
    /// The stored quiet count.
    spec fn spec_quiet(&self) -> u8;

    /// The stored verbose count.
    spec fn spec_verbose(&self) -> u8;

    /// Set the level of quiet.
    fn set_quiet(&mut self, quiet: u8)
        ensures
            final(self).spec_quiet() == quiet,
            final(self).spec_verbose() == old(self).spec_verbose(),
    ;

    /// Set the level of verbose.
    fn set_verbose(&mut self, verbose: u8)
        ensures
            final(self).spec_verbose() == verbose,
            final(self).spec_quiet() == old(self).spec_quiet(),
    ;
}

/// The binary being configured.
#[derive(Clone, Copy, Debug)]
pub enum PudxBinary {
    /// The server binary.
    Puds,
    /// The worker binary.
    Pudw,
}

/// The default configuration location for a given binary.
#[derive(Clone, Copy, Debug)]
pub struct Defaults {
    /// The directory under the configuration root.
    pub default_base_path: &'static str,
    /// The file name inside that directory.
    pub default_file_name: &'static str,
}

impl Defaults {
    /// Where the server's configuration lives by default.
    pub fn puds_defaults() -> (r: Defaults)
        ensures
            r.default_base_path@ == "puds"@,
            r.default_file_name@ == "puds.toml"@,
    {
        Defaults { default_base_path: "puds", default_file_name: "puds.toml" }
    }

    /// Where the worker's configuration lives by default.
    pub fn pudw_defaults() -> (r: Defaults)
        ensures
            r.default_base_path@ == "pudw"@,
            r.default_file_name@ == "pudw.toml"@,
    {
        Defaults { default_base_path: "pudw", default_file_name: "pudw.toml" }
    }

    /// The directory under the configuration root.
    pub fn base_path(&self) -> (r: &'static str)
        ensures
            r == self.default_base_path,
    {
        self.default_base_path
    }

    /// The file name inside that directory.
    pub fn file_name(&self) -> (r: &'static str)
        ensures
            r == self.default_file_name,
    {
        self.default_file_name
    }

    /// The defaults for the given binary.
    pub fn for_binary(binary: PudxBinary) -> (r: Defaults)
        ensures
            binary is Puds ==> r.default_base_path@ == "puds"@ && r.default_file_name@
                == "puds.toml"@,
            binary is Pudw ==> r.default_base_path@ == "pudw"@ && r.default_file_name@
                == "pudw.toml"@,
    {
        match binary {
            PudxBinary::Puds => Defaults::puds_defaults(),
            PudxBinary::Pudw => Defaults::pudw_defaults(),
        }
    }
}

/// Pick the configuration file path: an explicit path wins; otherwise the
/// binary's default file under the machine's configuration directory, or an
/// error when the machine has none.
pub fn config_file_path(args: &Cli, defaults: Defaults) -> (r: Result<String, Error>)
    ensures
        args.spec_config_file_path() matches Some(p) ==> r matches Ok(q) && q@ == p@,
        args.spec_config_file_path() is None ==> (r matches Err(e) ==> e@ is ConfigDir),
        args.spec_config_file_path() is None ==> (r matches Ok(q) ==> ({
            exists|dir: Seq<char>|
                q@ == dir + "/"@ + defaults.default_base_path@ + "/"@
                    + defaults.default_file_name@
        })),
{
    match args.config_file_path() {
        Some(path) => Ok(path.clone()),
        None => {
            match config_dir() {
                Some(dir) => {
                    let ghost dirv = dir@;
                    let mut path = dir;
                    path.append("/");
                    path.append(defaults.base_path());
                    path.append("/");
                    path.append(defaults.file_name());
                    proof {
                        assert(path@ == dirv + "/"@ + defaults.default_base_path@ + "/"@
                            + defaults.default_file_name@);
                    }
                    Ok(path)
                },
                None => Err(Error::ConfigDir),
            }
        },
    }
}

/// Load verbosity from the command line into a configuration.
pub fn transform<U: Verbosity>(config: &mut U, verbose: u8, quiet: u8)
    ensures
        final(config).spec_verbose() == verbose,
        final(config).spec_quiet() == quiet,
{
    config.set_verbose(verbose);
    config.set_quiet(quiet);
}

} // verus!
