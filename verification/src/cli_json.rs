//! The plain data shape of a command-line interface as dumped for man-page
//! generation: options, positional arguments, and nested subcommands.

use vstd::prelude::*;

verus! {

/// One option of a command.
#[derive(Debug, Clone)]
pub struct CliOption {
    /// The long flag (for example `interactive`)
    pub long: String,
    /// The short flag if any (for example `i`)
    pub short: Option<String>,
    /// The value name if the option takes an argument
    pub value_name: Option<String>,
    /// The default value if any
    pub default: Option<String>,
    /// The help text
    pub help: String,
    /// Possible values for enumerated options
    pub possible_values: Vec<String>,
    /// Whether the option is required
    pub required: bool,
    /// Whether this is a boolean flag
    pub is_boolean: bool,
}

/// One command with its options, positionals and subcommands.
#[derive(Debug)]
pub struct CliCommand {
    /// The command's name
    pub name: String,
    /// The command's description
    pub about: Option<String>,
    /// Its options
    pub options: Vec<CliOption>,
    /// Its positional arguments
    pub positionals: Vec<CliPositional>,
    /// Its subcommands
    pub subcommands: Vec<CliCommand>,
}

/// One positional argument of a command.
#[derive(Debug, Clone)]
pub struct CliPositional {
    /// The argument's name
    pub name: String,
    /// Its help text
    pub help: Option<String>,
    /// Whether it is required
    pub required: bool,
    /// Whether it may repeat
    pub multiple: bool,
}

} // verus!
