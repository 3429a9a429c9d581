//! Release-engineering helpers: development version strings and the line
//! rewriting applied to a package spec file.

use vstd::prelude::*;

use crate::strutil::{has_prefix, str_starts_with};

verus! {

/// The development version for an untagged build: the commit timestamp,
/// `.g`, and the abbreviated commit. The timestamp comes first so that newer
/// always sorts higher.
pub fn dev_version(timestamp: &str, abbrev: &str) -> (r: String)
    ensures
        r@ == timestamp@ + ".g"@ + abbrev@,
{
    let mut v = timestamp.to_owned();
    v.append(".g");
    v.append(abbrev);
    proof {
        assert(v@ =~= timestamp@ + ".g"@ + abbrev@);
    }
    v
}

/// The first ten characters of a commit hash (or all of it when shorter).
pub fn abbrev_commit(rev: &str) -> (r: String)
    ensures
        r@ == rev@.take(if rev@.len() < 10 { rev@.len() as int } else { 10int }),
{
    let n = rev.unicode_len();
    let cut = if n < 10 {
        n
    } else {
        10
    };
    rev.substring_char(0, cut).to_owned()
}

/// How one spec-file line is rewritten when generating the packaging spec:
/// a `Version:` line becomes a replacement note and the new version, the
/// `Source0` and `Source1` lines point at the produced archives, and every
/// other line is kept as it is.
pub open spec fn spec_rewrite(line: Seq<char>, v: Seq<char>, source0: Seq<char>, source1: Seq<
    char,
>) -> Seq<Seq<char>> {
    if has_prefix(line, "Version:"@) {
        seq!["# Replaced by cargo xtask spec"@, "Version: "@ + v]
    } else if has_prefix(line, "Source0"@) {
        seq!["Source0: "@ + source0]
    } else if has_prefix(line, "Source1"@) {
        seq!["Source1: "@ + source1]
    } else {
        seq![line]
    }
}

/// Rewrites one spec-file line for the packaging spec, exactly
/// [`spec_rewrite`].
pub fn update_spec_line(line: &str, version: &str, source0: &str, source1: &str) -> (r: Vec<
    String,
>)
    ensures
        r.deep_view() == spec_rewrite(line@, version@, source0@, source1@),
{
    let mut out: Vec<String> = Vec::new();
    if str_starts_with(line, "Version:") {
        out.push(String::from_str("# Replaced by cargo xtask spec"));
        let mut l = String::from_str("Version: ");
        l.append(version);
        out.push(l);
        proof {
            assert(out.deep_view() =~= spec_rewrite(line@, version@, source0@, source1@));
        }
    } else if str_starts_with(line, "Source0") {
        let mut l = String::from_str("Source0: ");
        l.append(source0);
        out.push(l);
        proof {
            assert(out.deep_view() =~= spec_rewrite(line@, version@, source0@, source1@));
        }
    } else if str_starts_with(line, "Source1") {
        let mut l = String::from_str("Source1: ");
        l.append(source1);
        out.push(l);
        proof {
            assert(out.deep_view() =~= spec_rewrite(line@, version@, source0@, source1@));
        }
    } else {
        out.push(line.to_owned());
        proof {
            assert(out.deep_view() =~= spec_rewrite(line@, version@, source0@, source1@));
        }
    }
    out
}

/// How one spec-file line is rewritten when building a source package: only
/// the `Version:` line is replaced.
pub open spec fn srpm_rewrite(line: Seq<char>, v: Seq<char>) -> Seq<Seq<char>> {
    if has_prefix(line, "Version:"@) {
        seq!["# Replaced by cargo xtask package-srpm"@, "Version: "@ + v]
    } else {
        seq![line]
    }
}

/// Rewrites one spec-file line for the source package, exactly
/// [`srpm_rewrite`].
pub fn srpm_spec_line(line: &str, version: &str) -> (r: Vec<String>)
    ensures
        r.deep_view() == srpm_rewrite(line@, version@),
{
    let mut out: Vec<String> = Vec::new();
    if str_starts_with(line, "Version:") {
        out.push(String::from_str("# Replaced by cargo xtask package-srpm"));
        let mut l = String::from_str("Version: ");
        l.append(version);
        out.push(l);
        proof {
            assert(out.deep_view() =~= srpm_rewrite(line@, version@));
        }
    } else {
        out.push(line.to_owned());
        proof {
            assert(out.deep_view() =~= srpm_rewrite(line@, version@));
        }
    }
    out
}

} // verus!
