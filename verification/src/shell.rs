//! The shell-integration command: computes the lines it reports for a given
//! set of flags; printing them is the caller's concern.

use vstd::prelude::*;

verus! {

/// Arguments of the shell command.
#[derive(Debug, Clone)]
pub struct ShellArgs {
    /// Install shell integration
    pub install: bool,
    /// Uninstall shell integration
    pub uninstall: bool,
    /// Show shell integration status
    pub status: bool,
    /// The shell type (bash, zsh, fish)
    pub shell_type: Option<String>,
}

/// The lines the shell command reports: a greeting, then — in this order of
/// precedence — the install notice (with the shell type when given), the
/// uninstall notice, the status notice, or the two usage hints.
pub open spec fn shell_lines(a: ShellArgs) -> Seq<Seq<char>> {
    let base = seq!["Hello from shell command!"@];
    if a.install {
        let b = base.push("Installing shell integration..."@);
        match a.shell_type {
            Some(st) => b.push("Shell type: "@ + st@),
            None => b,
        }
    } else if a.uninstall {
        base.push("Uninstalling shell integration..."@)
    } else if a.status {
        base.push("Checking shell integration status..."@)
    } else {
        base.push("This command will handle shell integration."@).push(
            "Use --help to see available options."@,
        )
    }
}

impl ShellArgs {
    /// Reports the command's output lines, exactly [`shell_lines`].
    pub fn execute(&self) -> (r: Vec<String>)
        ensures
            r.deep_view() =~= shell_lines(*self),
    {
        let mut lines: Vec<String> = Vec::new();
        lines.push(String::from_str("Hello from shell command!"));
        if self.install {
            lines.push(String::from_str("Installing shell integration..."));
            match &self.shell_type {
                Some(st) => {
                    let mut l = String::from_str("Shell type: ");
                    l.append(st.as_str());
                    proof {
                        assert(l@ =~= "Shell type: "@ + st@);
                    }
                    lines.push(l);
                },
                None => {},
            }
        } else if self.uninstall {
            lines.push(String::from_str("Uninstalling shell integration..."));
        } else if self.status {
            lines.push(String::from_str("Checking shell integration status..."));
        } else {
            lines.push(String::from_str("This command will handle shell integration."));
            lines.push(String::from_str("Use --help to see available options."));
        }
        lines
    }
}

} // verus!
