//! Command-line configuration.

use vstd::prelude::*;

verus! {

/// The complaint about an argument list that is too long.
pub const TOO_MANY_ARGUMENTS: &'static str =
    "Too many arguments. Only 1 optional argument is used.";

/// What the command line asks for: an optional file holding the word list.
#[derive(Debug)]
pub struct Config {
    pub filename: Option<String>,
}

impl Config {
    /// The meaning of an argument list. The first argument is the program's
    /// name; the second, if present, names the word file; a third is an error.
    pub open spec fn parsed(raw_args: Seq<String>) -> Result<Config, &'static str> {
        if raw_args.len() > 2 {
            Err(TOO_MANY_ARGUMENTS)
        } else if raw_args.len() == 2 {
            Ok(Config { filename: Some(raw_args[1]) })
        } else {
            Ok(Config { filename: None })
        }
    }

    /// Reads the configuration off the raw argument list.
    pub fn new(raw_args: &[String]) -> (result: Result<Config, &'static str>)
        ensures
            result == Config::parsed(raw_args@),
            result is Err <==> raw_args@.len() > 2,
    {
        if raw_args.len() > 2 {
            return Err(TOO_MANY_ARGUMENTS);
        }
        if raw_args.len() == 2 {
            return Ok(Config { filename: Some(raw_args[1].clone()) });
        }
        Ok(Config { filename: None })
    }
}

} // verus!
