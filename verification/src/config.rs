//! The configuration of one run: what to look for, where, and whether case
//! counts.

use vstd::prelude::*;

verus! {

/// Why no configuration could be built.
#[derive(Debug, Clone, Copy, PartialEq, Eq, Structural)]
pub enum ConfigError {
    /// The argument list is too short to hold a query and a file name after
    /// the program's name.
    NotEnoughArguments,
}

impl ConfigError {
    /// A short description of the error for the user.
    pub fn message(&self) -> (text: &'static str)
        ensures
            text@ == "not enough arguments"@,
    {
        match self {
            ConfigError::NotEnoughArguments => "not enough arguments",
        }
    }
}

/// What one run searches for, in which file, and whether case counts.
#[derive(Debug)]
pub struct Config {
    /// The text to look for.
    pub query: String,
    /// The path of the file to look in.
    pub filename: String,
    /// Whether a letter matches only itself, not its other case.
    pub case_sensitive: bool,
}

/// A configuration as plain values: the model that contracts speak of.
pub struct ConfigView {
    pub query: Seq<char>,
    pub filename: Seq<char>,
    pub case_sensitive: bool,
}

impl View for Config {
    type V = ConfigView;

    open spec fn view(&self) -> ConfigView {
        ConfigView {
            query: self.query@,
            filename: self.filename@,
            case_sensitive: self.case_sensitive,
        }
    }
}

impl Config {
    /// Builds the configuration from the full argument list, whose first entry
    /// is the program's name, and from whether the switch for case-insensitive
    /// search is set. The second entry becomes the query and the third the
    /// file name, whatever follows them; case counts unless the switch is set.
    /// A list of fewer than three entries gives `NotEnoughArguments`.
    pub fn new(args: &[String], case_insensitive: bool) -> (built: Result<Config, ConfigError>)
        ensures
            args@.len() < 3 ==> built == Err::<Config, ConfigError>(
                ConfigError::NotEnoughArguments,
            ),
            args@.len() >= 3 ==> built is Ok && built->Ok_0@ == (ConfigView {
                query: args@[1]@,
                filename: args@[2]@,
                case_sensitive: !case_insensitive,
            }),
    {
        if args.len() < 3 {
            return Err(ConfigError::NotEnoughArguments);
        }
        let query = args[1].clone();
        let filename = args[2].clone();
        let case_sensitive = !case_insensitive;
        Ok(Config { query, filename, case_sensitive })
    }
}

/// Two configurations are equal when they name the same query and the same
/// file; whether case counts is not compared.
impl PartialEq for Config {
    fn eq(&self, other: &Config) -> (equal: bool) {
        self.query == other.query && self.filename == other.filename
    }
}

impl vstd::std_specs::cmp::PartialEqSpecImpl for Config {
    open spec fn obeys_eq_spec() -> bool {
        true
    }

    open spec fn eq_spec(&self, other: &Config) -> bool {
        self@.query == other@.query && self@.filename == other@.filename
    }
}

} // verus!
