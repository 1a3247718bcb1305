//! The configuration resolver: validates the positional arguments and
//! assembles the search request that drives the engine.

use vstd::prelude::*;

verus! {

/// Why resolving a configuration failed.
#[derive(Clone, Copy, Debug, PartialEq, Eq, Structural)]
pub enum ConfigError {
    /// Fewer than the two required positional arguments were supplied.
    InsufficientArguments,
}

/// A resolved search request: the query text, the path of the file to
/// search, and the case policy. Immutable once constructed.
pub struct Config {
    pub query: String,
    pub filename: String,
    pub case_sensitive: bool,
}

impl Config {
    /// Builds the configuration from the positional arguments and the
    /// ambient case-insensitivity flag. The first argument is conventionally
    /// the program name and is ignored; the second is the query and the
    /// third the file path. The flag is read from the environment by the
    /// caller and injected here, so the engine itself never touches ambient
    /// state. No validation beyond arity: empty queries and nonexistent
    /// paths are accepted and surface later.
    pub fn build(args: &Vec<String>, case_insensitive: bool) -> (result: Result<
        Config,
        ConfigError,
    >)
        ensures
            match result {
                Ok(config) => {
                    &&& args@.len() >= 3
                    &&& config.query == args@[1]
                    &&& config.filename == args@[2]
                    &&& config.case_sensitive == !case_insensitive
                },
                Err(e) => {
                    &&& args@.len() < 3
                    &&& e == ConfigError::InsufficientArguments
                },
            },
    {
        if args.len() < 3 {
            return Err(ConfigError::InsufficientArguments);
        }
        let query = args[1].clone();
        let filename = args[2].clone();
        Ok(Config { query, filename, case_sensitive: !case_insensitive })
    }
}

} // verus!
