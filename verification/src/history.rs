//! The history command: computes the lines it reports for a given set of
//! flags; printing them is the caller's concern.

use vstd::prelude::*;

use crate::strutil::{dec_str, usize_to_string};

verus! {

/// Arguments of the history command.
#[derive(Debug, Clone)]
pub struct HistoryArgs {
    /// List recent history entries
    pub list: bool,
    /// Show full details for each entry
    pub verbose: bool,
    /// Limit on the number of entries to show
    pub limit: usize,
}

/// The lines the history command reports: a greeting; with the list flag, the
/// listing notice carrying the limit; with the verbose flag, the verbose
/// notice; and with neither flag, the two usage hints.
pub open spec fn history_lines(list: bool, verbose: bool, limit: int) -> Seq<Seq<char>> {
    let base = seq!["Hello from history command!"@];
    let with_list = if list {
        base.push("Listing recent history entries (limit: "@ + dec_str(limit) + ")..."@)
    } else {
        base
    };
    let with_verbose = if verbose {
        with_list.push("Verbose mode enabled - showing full details"@)
    } else {
        with_list
    };
    if !list && !verbose {
        with_verbose.push("This command will show your chat history."@).push(
            "Use --help to see available options."@,
        )
    } else {
        with_verbose
    }
}

impl HistoryArgs {
    /// Reports the command's output lines, exactly [`history_lines`].
    pub fn execute(&self) -> (r: Vec<String>)
        ensures
            r.deep_view() =~= history_lines(self.list, self.verbose, self.limit as int),
    {
        let mut lines: Vec<String> = Vec::new();
        lines.push(String::from_str("Hello from history command!"));
        if self.list {
            let mut l = String::from_str("Listing recent history entries (limit: ");
            l.append(usize_to_string(self.limit).as_str());
            l.append(")...");
            proof {
                assert(l@ =~= "Listing recent history entries (limit: "@ + dec_str(
                    self.limit as int,
                ) + ")..."@);
            }
            lines.push(l);
        }
        if self.verbose {
            lines.push(String::from_str("Verbose mode enabled - showing full details"));
        }
        if !self.list && !self.verbose {
            lines.push(String::from_str("This command will show your chat history."));
            lines.push(String::from_str("Use --help to see available options."));
        }
        lines
    }
}

} // verus!
