//! Helpers for the CLI wrapper: argument validation with resource limits,
//! exit-code conventions, and the environment-variable passlist.

use vstd::prelude::*;

use crate::strutil::{dec_str, has_prefix, str_eq, str_starts_with, usize_to_string};

verus! {

/// Maximum length of one argument, to prevent resource exhaustion.
pub const MAX_ARG_LENGTH: usize = 1_000_000;

/// Maximum total length of all arguments together.
pub const MAX_TOTAL_ARGS_LENGTH: usize = 10_000_000;

/// Exit code: service unavailable (sysexits convention).
pub const EX_UNAVAILABLE: i32 = 69;

/// Exit code: internal software error.
pub const EX_SOFTWARE: i32 = 70;

/// Exit code: system error.
pub const EX_OSERR: i32 = 71;

/// Exit code: cannot create output file.
pub const EX_CANTCREAT: i32 = 73;

/// The UTF-8 byte length of an argument, as the running program measures it.
pub open spec fn arg_bytes(a: String) -> nat {
    (vstd::utf8::encode_utf8(a@).len() as usize) as nat
}

/// Whether an argument's UTF-8 encoding contains a null byte.
pub open spec fn arg_has_null(a: String) -> bool {
    vstd::utf8::encode_utf8(a@).contains(0u8)
}

/// An argument passes the per-argument checks: within the length limit and
/// free of null bytes.
pub open spec fn arg_ok(a: String) -> bool {
    arg_bytes(a) <= MAX_ARG_LENGTH as nat && !arg_has_null(a)
}

/// The total byte length of a sequence of arguments.
pub open spec fn total_bytes(args: Seq<String>) -> int
    decreases args.len(),
{
    if args.len() == 0 {
        0
    } else {
        total_bytes(args.drop_last()) + arg_bytes(args.last())
    }
}

/// Why a set of arguments was rejected.
#[derive(Debug, Clone)]
pub enum ArgsError {
    /// One argument exceeds the per-argument length limit.
    TooLong {
        /// Position of the offending argument
        index: usize,
        /// Its byte length
        len: usize,
    },
    /// One argument contains a null byte.
    NullByte {
        /// Position of the offending argument
        index: usize,
    },
    /// All arguments pass individually but their total length is too large.
    TotalTooLong {
        /// The total byte length
        total: usize,
    },
}

/// The message text for a rejection.
pub open spec fn args_error_message(e: ArgsError) -> Seq<char> {
    match e {
        ArgsError::TooLong { index, len } => "Argument "@ + dec_str(index as int)
            + " is too long: "@ + dec_str(len as int) + " bytes (max: 1000000)"@,
        ArgsError::NullByte { index } => "Argument "@ + dec_str(index as int)
            + " contains null byte"@,
        ArgsError::TotalTooLong { total } => "Total arguments length is too large: "@ + dec_str(
            total as int,
        ) + " bytes (max: 10000000)"@,
    }
}

impl ArgsError {
    /// Renders the rejection as text, exactly [`args_error_message`].
    pub fn message(&self) -> (r: String)
        ensures
            r@ == args_error_message(*self),
    {
        match self {
            ArgsError::TooLong { index, len } => {
                let mut m = String::from_str("Argument ");
                m.append(usize_to_string(*index).as_str());
                m.append(" is too long: ");
                m.append(usize_to_string(*len).as_str());
                m.append(" bytes (max: 1000000)");
                proof {
                    assert(m@ =~= args_error_message(*self));
                }
                m
            },
            ArgsError::NullByte { index } => {
                let mut m = String::from_str("Argument ");
                m.append(usize_to_string(*index).as_str());
                m.append(" contains null byte");
                proof {
                    assert(m@ =~= args_error_message(*self));
                }
                m
            },
            ArgsError::TotalTooLong { total } => {
                let mut m = String::from_str("Total arguments length is too large: ");
                m.append(usize_to_string(*total).as_str());
                m.append(" bytes (max: 10000000)");
                proof {
                    assert(m@ =~= args_error_message(*self));
                }
                m
            },
        }
    }
}

/// Whether the UTF-8 encoding of `s` contains a null byte.
fn contains_null_byte(s: &str) -> (r: bool)
    ensures
        r == vstd::utf8::encode_utf8(s@).contains(0u8),
{
    let bytes = s.as_bytes_vec();
    let n = bytes.len();
    let mut i: usize = 0;
    while i < n
        invariant
            bytes@ == vstd::utf8::encode_utf8(s@),
            n == bytes@.len(),
            i <= n,
            forall|k: int| 0 <= k < i as int ==> bytes@[k] != 0u8,
        decreases n - i,
    {
        if bytes[i] == 0 {
            return true;
        }
        i = i + 1;
    }
    false
}

/// Validates command-line arguments for security and resource limits.
///
/// Accepts exactly when every argument is within the per-argument length
/// limit and free of null bytes, and the total length is within the overall
/// limit. A rejection names the first offending argument: an over-long
/// argument at the first position where any check fails, a null byte at the
/// first such position otherwise, and the total length only when every
/// argument passes individually (reported saturated at the machine limit).
pub fn validate_args(args: &Vec<String>) -> (r: Result<(), ArgsError>)
    ensures
        r is Ok <==> ((forall|k: int| 0 <= k < args@.len() ==> arg_ok(#[trigger] args@[k]))
            && total_bytes(args@) <= MAX_TOTAL_ARGS_LENGTH as int),
        r matches Err(ArgsError::TooLong { index, len }) ==> {
            &&& (index as int) < args@.len()
            &&& len as nat == arg_bytes(args@[index as int])
            &&& arg_bytes(args@[index as int]) > MAX_ARG_LENGTH as nat
            &&& forall|k: int| 0 <= k < index as int ==> arg_ok(#[trigger] args@[k])
        },
        r matches Err(ArgsError::NullByte { index }) ==> {
            &&& (index as int) < args@.len()
            &&& arg_bytes(args@[index as int]) <= MAX_ARG_LENGTH as nat
            &&& arg_has_null(args@[index as int])
            &&& forall|k: int| 0 <= k < index as int ==> arg_ok(#[trigger] args@[k])
        },
        r matches Err(ArgsError::TotalTooLong { total }) ==> {
            &&& forall|k: int| 0 <= k < args@.len() ==> arg_ok(#[trigger] args@[k])
            &&& total_bytes(args@) > MAX_TOTAL_ARGS_LENGTH as int
            &&& total as int == if total_bytes(args@) <= usize::MAX as int {
                total_bytes(args@)
            } else {
                usize::MAX as int
            }
        },
{
    let n = args.len();
    let mut total: usize = 0;
    let mut i: usize = 0;
    while i < n
        invariant
            n == args@.len(),
            i <= n,
            forall|k: int| 0 <= k < i as int ==> arg_ok(#[trigger] args@[k]),
            total as int == if total_bytes(args@.take(i as int)) <= usize::MAX as int {
                total_bytes(args@.take(i as int))
            } else {
                usize::MAX as int
            },
        decreases n - i,
    {
        let arg_len = args[i].as_str().len();
        if arg_len > MAX_ARG_LENGTH {
            return Err(ArgsError::TooLong { index: i, len: arg_len });
        }
        total = total.saturating_add(arg_len);
        if contains_null_byte(args[i].as_str()) {
            return Err(ArgsError::NullByte { index: i });
        }
        proof {
            assert(args@.take(i as int + 1).drop_last() =~= args@.take(i as int));
            assert(args@.take(i as int + 1).last() == args@[i as int]);
        }
        i = i + 1;
    }
    proof {
        assert(args@.take(n as int) =~= args@);
    }
    if total > MAX_TOTAL_ARGS_LENGTH {
        return Err(ArgsError::TotalTooLong { total });
    }
    Ok(())
}

/// Converts a child's exit information to an exit code: a normal exit code is
/// passed through, termination by a signal becomes 128 plus the signal number
/// (the shell convention), and anything else is 1.
pub fn status_to_exit_code(code: Option<i32>, signal: Option<i32>) -> (r: i32)
    requires
        signal matches Some(s) ==> s <= i32::MAX - 128,
    ensures
        code matches Some(c) ==> r == c,
        code is None ==> (signal matches Some(s) ==> r == 128 + s),
        code is None && signal is None ==> r == 1,
{
    match code {
        Some(c) => c,
        None => match signal {
            Some(s) => 128 + s,
            None => 1,
        },
    }
}

/// An environment key that is safe to pass through to the child process:
/// one of the fixed passlist, or any key beginning with `XDG_`.
pub open spec fn safe_env_key(k: Seq<char>) -> bool {
    ||| k == "PATH"@
    ||| k == "HOME"@
    ||| k == "USER"@
    ||| k == "LOGNAME"@
    ||| k == "SHELL"@
    ||| k == "TERM"@
    ||| k == "LANG"@
    ||| k == "LC_ALL"@
    ||| k == "LC_CTYPE"@
    ||| k == "TZ"@
    ||| k == "TMPDIR"@
    ||| k == "EDITOR"@
    ||| k == "VISUAL"@
    ||| k == "PAGER"@
    ||| k == "DISPLAY"@
    ||| k == "COLORTERM"@
    ||| has_prefix(k, "XDG_"@)
}

/// Decides [`safe_env_key`].
pub fn is_safe_env_key(key: &str) -> (r: bool)
    ensures
        r == safe_env_key(key@),
{
    if str_eq(key, "PATH") || str_eq(key, "HOME") || str_eq(key, "USER") || str_eq(key, "LOGNAME")
        || str_eq(key, "SHELL") || str_eq(key, "TERM") || str_eq(key, "LANG") || str_eq(
        key,
        "LC_ALL",
    ) || str_eq(key, "LC_CTYPE") || str_eq(key, "TZ") || str_eq(key, "TMPDIR") || str_eq(
        key,
        "EDITOR",
    ) || str_eq(key, "VISUAL") || str_eq(key, "PAGER") || str_eq(key, "DISPLAY") || str_eq(
        key,
        "COLORTERM",
    ) {
        return true;
    }
    str_starts_with(key, "XDG_")
}

/// The subsequence of environment pairs whose keys are safe to pass through.
pub open spec fn filtered_env(ps: Seq<(String, String)>) -> Seq<(String, String)>
    decreases ps.len(),
{
    if ps.len() == 0 {
        Seq::empty()
    } else {
        let prev = filtered_env(ps.drop_last());
        if safe_env_key(ps.last().0@) {
            prev.push(ps.last())
        } else {
            prev
        }
    }
}

/// Keeps exactly the environment pairs with safe keys, in order.
pub fn filter_env_pairs(pairs: &Vec<(String, String)>) -> (r: Vec<(String, String)>)
    ensures
        r@ == filtered_env(pairs@),
{
    let n = pairs.len();
    let mut out: Vec<(String, String)> = Vec::new();
    let mut i: usize = 0;
    proof {
        assert(out@ =~= filtered_env(pairs@.take(0)));
    }
    while i < n
        invariant
            n == pairs@.len(),
            i <= n,
            out@ == filtered_env(pairs@.take(i as int)),
        decreases n - i,
    {
        proof {
            assert(pairs@.take(i as int + 1).drop_last() =~= pairs@.take(i as int));
            assert(pairs@.take(i as int + 1).last() == pairs@[i as int]);
        }
        if is_safe_env_key(pairs[i].0.as_str()) {
            let p = (pairs[i].0.clone(), pairs[i].1.clone());
            out.push(p);
            proof {
                assert(out@ =~= filtered_env(pairs@.take(i as int + 1)));
            }
        }
        i = i + 1;
    }
    proof {
        assert(pairs@.take(n as int) =~= pairs@);
    }
    out
}

/// Whether a Unix permission mode has any execute bit set.
pub fn mode_is_executable(mode: u32) -> (r: bool)
    ensures
        r == ((mode & 0o111) != 0),
{
    (mode & 0o111) != 0
}

} // verus!
