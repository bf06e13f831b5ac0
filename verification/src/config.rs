//! The immutable run configuration, assembled from defaults, the
//! environment-supplied credential and the command-line options. The
//! surrounding application parses argv and the environment; the library
//! only records the resulting plain values.

use vstd::prelude::*;

verus! {

/// Which extraction flows the invocation runs.
#[derive(PartialEq, Eq, Structural, Clone, Copy, Debug)]
pub enum SubCommand {
    Members,
    Repositories,
    All,
}

/// The command-line options, already parsed to plain values.
pub struct Opts {
    pub cache_file_prefix: Option<String>,
    pub org: String,
    pub out_csv_file: String,
    pub subcmd: SubCommand,
}

/// The environment-supplied values.
pub struct Env {
    pub github_access_token: String,
}

/// The run configuration every component receives read-only.
pub struct Config {
    pub github_access_token: String,
    pub cache_file_prefix: Option<String>,
    pub org: String,
    pub out_csv_file: String,
    pub subcmd: SubCommand,
}

impl Config {
    /// The default configuration before the environment and the options
    /// are folded in.
    pub fn new() -> (c: Config)
        ensures
            c.github_access_token@ == Seq::<char>::empty(),
            c.cache_file_prefix is None,
            c.org@ == Seq::<char>::empty(),
            c.out_csv_file@ == "out.csv"@,
            c.subcmd == SubCommand::All,
    {
        Config {
            github_access_token: String::new(),
            cache_file_prefix: None,
            org: String::new(),
            out_csv_file: "out.csv".to_owned(),
            subcmd: SubCommand::All,
        }
    }

    /// Folds the environment values in; everything else is kept.
    pub fn update_with_env(self, env: Env) -> (c: Config)
        ensures
            c.github_access_token == env.github_access_token,
            c.cache_file_prefix == self.cache_file_prefix,
            c.org == self.org,
            c.out_csv_file == self.out_csv_file,
            c.subcmd == self.subcmd,
    {
        Config { github_access_token: env.github_access_token, ..self }
    }

    /// Folds the command-line options in: the organization, output path
    /// and subcommand always come from the options; the cache prefix only
    /// when one was given.
    pub fn update_with_opts(self, opts: Opts) -> (c: Config)
        ensures
            c.github_access_token == self.github_access_token,
            c.cache_file_prefix == if opts.cache_file_prefix is Some {
                opts.cache_file_prefix
            } else {
                self.cache_file_prefix
            },
            c.org == opts.org,
            c.out_csv_file == opts.out_csv_file,
            c.subcmd == opts.subcmd,
    {
        let config = if opts.cache_file_prefix.is_some() {
            Config { cache_file_prefix: opts.cache_file_prefix, ..self }
        } else {
            self
        };
        Config { org: opts.org, out_csv_file: opts.out_csv_file, subcmd: opts.subcmd, ..config }
    }
}

} // verus!
