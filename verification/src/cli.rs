//! The command-line surface of the wrapper: its subcommand structure, the
//! dispatch decision, and the default-to-chat routing rule.

use vstd::prelude::*;

use crate::chat::ChatArgs;
use crate::history::HistoryArgs;
use crate::shell::ShellArgs;
use crate::strutil::str_eq;

verus! {

/// The parsed command line.
#[derive(Debug)]
pub struct Cli {
    /// Subcommand to execute; absent means show help
    pub command: Option<Commands>,
}

/// Available subcommands.
#[derive(Debug)]
pub enum Commands {
    /// Start a chat session (the default)
    Chat(ChatArgs),
    /// View and manage chat history
    History(HistoryArgs),
    /// Shell integration and features
    Shell(ShellArgs),
    /// Internal commands for tooling, hidden from end users
    Internals {
        /// Internal subcommand to execute
        command: InternalsCommands,
    },
}

/// Internal subcommands for tooling and documentation generation.
#[derive(Debug, Clone)]
pub enum InternalsCommands {
    /// Dump the CLI structure as JSON for man-page generation
    DumpCliJson,
}

/// What a parsed command line asks for.
#[derive(Debug)]
pub enum CliDispatch {
    /// Run the chat command
    Chat(ChatArgs),
    /// Run the history command
    History(HistoryArgs),
    /// Run the shell command
    Shell(ShellArgs),
    /// Run an internal command
    Internals(InternalsCommands),
    /// No subcommand: show help and exit unsuccessfully
    ShowHelp,
}

impl Cli {
    /// Decides what to run: each subcommand dispatches to itself, and an
    /// absent subcommand asks for help.
    pub fn execute(self) -> (r: CliDispatch)
        ensures
            self.command is None ==> r is ShowHelp,
            self.command matches Some(Commands::Chat(a)) ==> r == CliDispatch::Chat(a),
            self.command matches Some(Commands::History(a)) ==> r == CliDispatch::History(a),
            self.command matches Some(Commands::Shell(a)) ==> r == CliDispatch::Shell(a),
            self.command matches Some(Commands::Internals { command }) ==> r
                == CliDispatch::Internals(command),
    {
        match self.command {
            None => CliDispatch::ShowHelp,
            Some(Commands::Chat(a)) => CliDispatch::Chat(a),
            Some(Commands::History(a)) => CliDispatch::History(a),
            Some(Commands::Shell(a)) => CliDispatch::Shell(a),
            Some(Commands::Internals { command }) => CliDispatch::Internals(command),
        }
    }
}

/// The default-routing rule: whether a raw argument list (program name first)
/// is a natural-language query for the chat subcommand rather than an
/// explicit subcommand or a help/version request. `history` and `shell`
/// followed by something that is not a flag read as natural language.
pub open spec fn route_to_chat(args: Seq<Seq<char>>) -> bool {
    if args.len() <= 1 {
        false
    } else {
        let first = args[1];
        if first == "chat"@ || first == "internals"@ {
            false
        } else if first == "history"@ || first == "shell"@ {
            if args.len() > 2 {
                !(args[2].len() > 0 && args[2][0] == '-')
            } else {
                false
            }
        } else if first == "--help"@ || first == "-h"@ || first == "--version"@ || first == "-V"@ {
            false
        } else {
            true
        }
    }
}

/// Decides [`route_to_chat`] for the raw process arguments.
pub fn should_route_to_chat(args: &Vec<String>) -> (r: bool)
    ensures
        r == route_to_chat(args.deep_view()),
{
    proof {
        assert(forall|k: int|
            0 <= k < args@.len() ==> args@[k]@ == #[trigger] args.deep_view()[k]);
    }
    if args.len() <= 1 {
        return false;
    }
    let first = args[1].as_str();
    if str_eq(first, "chat") || str_eq(first, "internals") {
        return false;
    }
    if str_eq(first, "history") || str_eq(first, "shell") {
        if args.len() > 2 {
            let second = args[2].as_str();
            if second.unicode_len() > 0 && second.get_char(0) == '-' {
                return false;
            }
            return true;
        }
        return false;
    }
    if str_eq(first, "--help") || str_eq(first, "-h") || str_eq(first, "--version") || str_eq(
        first,
        "-V",
    ) {
        return false;
    }
    true
}

} // verus!
