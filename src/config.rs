//! The settings of one search, taken from the command line.
use vstd::prelude::*;

verus! {

/// Why the command line gave no usable settings.
#[derive(PartialEq, Eq, Structural, Debug, Clone, Copy)]
pub enum ConfigError {
    /// No query (or an empty one) follows the program name.
    MissingQuery,
    /// No file name (or an empty one) follows the query.
    MissingFilename,
}

impl ConfigError {
    /// The diagnostic shown for this error.
    pub fn message(&self) -> (r: &'static str)
        ensures
            *self == ConfigError::MissingQuery ==> r@ == "Didn't get a query string"@,
            *self == ConfigError::MissingFilename ==> r@ == "Didn't get a file name"@,
    {
        match self {
            ConfigError::MissingQuery => "Didn't get a query string",
            ConfigError::MissingFilename => "Didn't get a file name",
        }
    }
}

/// The settings of one search: what to look for, where, and whether letter
/// case matters.
#[derive(PartialEq, Debug)]
pub struct Config {
    pub query: String,
    pub filename: String,
    pub case_sensitive: bool,
}

impl Config {
    /// Settings that came through validation have a query and a file name.
    pub open spec fn wf(&self) -> bool {
        self.query@.len() > 0 && self.filename@.len() > 0
    }

    /// Builds the settings from the command line `args`, whose first entry is
    /// the program name and is skipped, then the query, then the file name;
    /// further entries are ignored. `case_insensitive_set` tells whether the
    /// environment asks for a search that ignores letter case. A missing
    /// argument is reported first; with both present, an empty one is
    /// reported as missing.
    pub fn new(args: Vec<String>, case_insensitive_set: bool) -> (r: Result<Config, ConfigError>)
        ensures
            r == Err::<Config, ConfigError>(ConfigError::MissingQuery) <==> (args.len() < 2 || (
            args.len() >= 3 && args[1]@.len() == 0)),
            r == Err::<Config, ConfigError>(ConfigError::MissingFilename) <==> (args.len() == 2 || (
            args.len() >= 3 && args[1]@.len() > 0 && args[2]@.len() == 0)),
            r is Ok <==> (args.len() >= 3 && args[1]@.len() > 0 && args[2]@.len() > 0),
            r is Ok ==> ({
                let c = r->Ok_0;
                &&& c.query@ == args[1]@
                &&& c.filename@ == args[2]@
                &&& c.case_sensitive == !case_insensitive_set
                &&& c.wf()
            }),
    {
        if args.len() < 2 {
            return Err(ConfigError::MissingQuery);
        }
        if args.len() < 3 {
            return Err(ConfigError::MissingFilename);
        }
        if args[1].as_str().is_empty() {
            return Err(ConfigError::MissingQuery);
        }
        if args[2].as_str().is_empty() {
            return Err(ConfigError::MissingFilename);
        }
        let query = args[1].clone();
        let filename = args[2].clone();
        Ok(Config { query, filename, case_sensitive: !case_insensitive_set })
    }
}

} // verus!
