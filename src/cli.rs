//! The query: which feature of which server, and where the report is.
use vstd::prelude::*;

verus! {

/// The three values a run is asked for.
pub struct Cli {
    pub feature: String,
    pub server: String,
    pub path: String,
}

/// Why the command-line values do not form a query.
#[derive(Debug, Clone, Copy, PartialEq, Eq, Structural)]
pub enum CliError {
    FeatureMissing,
    ServerMissing,
    PathMissing,
    TooManyArguments,
}

impl CliError {
    /// A sentence that describes the error.
    pub fn message(&self) -> (r: &'static str)
        ensures
            *self == CliError::FeatureMissing ==> r@ == "feature not defined"@,
            *self == CliError::ServerMissing ==> r@ == "server not defined"@,
            *self == CliError::PathMissing ==> r@ == "path not defined"@,
            *self == CliError::TooManyArguments ==> r@ == "too many parameters given, exactly 3 must be defined"@,
    {
        match self {
            CliError::FeatureMissing => "feature not defined",
            CliError::ServerMissing => "server not defined",
            CliError::PathMissing => "path not defined",
            CliError::TooManyArguments => "too many parameters given, exactly 3 must be defined",
        }
    }
}

impl Cli {
    /// Builds the query from the command line: the program name, then the
    /// feature, the server and the report path, and nothing more.
    pub fn build(args: &Vec<String>) -> (r: Result<Cli, CliError>)
        ensures
            args@.len() <= 1 ==> r == Err::<Cli, CliError>(CliError::FeatureMissing),
            args@.len() == 2 ==> r == Err::<Cli, CliError>(CliError::ServerMissing),
            args@.len() == 3 ==> r == Err::<Cli, CliError>(CliError::PathMissing),
            args@.len() > 4 ==> r == Err::<Cli, CliError>(CliError::TooManyArguments),
            args@.len() == 4 <==> r is Ok,
            r matches Ok(c) ==> c.feature == args@[1] && c.server == args@[2] && c.path == args@[3],
    {
        if args.len() < 2 {
            return Err(CliError::FeatureMissing);
        }
        if args.len() < 3 {
            return Err(CliError::ServerMissing);
        }
        if args.len() < 4 {
            return Err(CliError::PathMissing);
        }
        if args.len() > 4 {
            return Err(CliError::TooManyArguments);
        }
        Ok(Cli { feature: args[1].clone(), server: args[2].clone(), path: args[3].clone() })
    }
}

} // verus!
