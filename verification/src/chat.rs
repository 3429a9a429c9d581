//! The chat command: decides, from its flags and query words, which
//! arguments the wrapped assistant binary is to be run with.

use vstd::prelude::*;

use crate::helpers::{validate_args, ArgsError};

verus! {

/// Arguments of the chat command.
#[derive(Debug, Clone)]
pub struct ChatArgs {
    /// Start an interactive session
    pub interactive: bool,
    /// The question or query, one word per element
    pub query: Vec<String>,
}

/// Why a chat invocation was rejected.
#[derive(Debug, Clone)]
pub enum ChatError {
    /// Neither the interactive flag nor a query was given.
    MissingQuery,
    /// The query words failed validation.
    InvalidArgs(ArgsError),
}

/// Every argument within limits and the total within the overall limit.
pub open spec fn args_valid(args: Seq<String>) -> bool {
    (forall|k: int| 0 <= k < args.len() ==> crate::helpers::arg_ok(#[trigger] args[k]))
        && crate::helpers::total_bytes(args) <= crate::helpers::MAX_TOTAL_ARGS_LENGTH as int
}

impl ChatArgs {
    /// Decides what to run: an interactive session runs with `session`; a
    /// query runs with `run -t` followed by the validated query words; no
    /// flag and no query is rejected, as is a query that fails validation.
    pub fn execute(&self) -> (r: Result<Vec<String>, ChatError>)
        ensures
            self.interactive ==> r is Ok && r->Ok_0.deep_view() =~= seq!["session"@],
            (!self.interactive && self.query@.len() == 0) <==> (r matches Err(
                ChatError::MissingQuery,
            )),
            !self.interactive && self.query@.len() > 0 && args_valid(self.query@) ==> r is Ok
                && r->Ok_0.deep_view() =~= seq!["run"@, "-t"@] + self.query.deep_view(),
            !self.interactive && self.query@.len() > 0 && !args_valid(self.query@) ==> r matches Err(
                ChatError::InvalidArgs(_),
            ),
    {
        if !self.interactive && self.query.len() == 0 {
            return Err(ChatError::MissingQuery);
        }
        if self.interactive {
            Ok(self.execute_interactive())
        } else {
            self.execute_query()
        }
    }

    /// The arguments for interactive mode.
    pub fn execute_interactive(&self) -> (r: Vec<String>)
        ensures
            r.deep_view() =~= seq!["session"@],
    {
        Self::build_interactive_args()
    }

    /// Validates the query words and, when they pass, gives the arguments
    /// for query mode.
    pub fn execute_query(&self) -> (r: Result<Vec<String>, ChatError>)
        ensures
            args_valid(self.query@) ==> r is Ok && r->Ok_0.deep_view() =~= seq!["run"@, "-t"@]
                + self.query.deep_view(),
            !args_valid(self.query@) ==> r matches Err(ChatError::InvalidArgs(_)),
    {
        match validate_args(&self.query) {
            Err(e) => Err(ChatError::InvalidArgs(e)),
            Ok(()) => Ok(Self::build_query_args(&self.query)),
        }
    }

    /// Builds the arguments for interactive mode: just `session`.
    pub fn build_interactive_args() -> (r: Vec<String>)
        ensures
            r.deep_view() =~= seq!["session"@],
    {
        let mut args: Vec<String> = Vec::new();
        args.push(String::from_str("session"));
        args
    }

    /// Builds the arguments for query mode: `run -t` followed by the query
    /// words, passed separately and never joined.
    pub fn build_query_args(query: &Vec<String>) -> (r: Vec<String>)
        ensures
            r.deep_view() =~= seq!["run"@, "-t"@] + query.deep_view(),
    {
        let mut args: Vec<String> = Vec::new();
        args.push(String::from_str("run"));
        args.push(String::from_str("-t"));
        let n = query.len();
        let mut i: usize = 0;
        while i < n
            invariant
                n == query@.len(),
                i <= n,
                args.deep_view() =~= seq!["run"@, "-t"@] + query.deep_view().take(i as int),
            decreases n - i,
        {
            let ghost old_dv = args.deep_view();
            args.push(query[i].clone());
            proof {
                assert(args.deep_view() =~= old_dv.push(query.deep_view()[i as int]));
                assert(args.deep_view() =~= seq!["run"@, "-t"@] + query.deep_view().take(
                    i as int + 1,
                ));
            }
            i = i + 1;
        }
        proof {
            assert(query.deep_view().take(n as int) =~= query.deep_view());
        }
        args
    }
}

} // verus!
