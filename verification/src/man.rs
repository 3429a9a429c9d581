//! Man-page source generation: renders a command's subcommands as a markdown
//! table and its options and positionals as markdown blocks, resolves
//! subcommand paths, and normalizes git revisions into version strings.

use vstd::prelude::*;

use crate::strutil::{
    find_sub, replace_char, str_ends_with, str_find, str_replace_dash_with_dot, str_trim,
    str_trim_char_end, str_trim_char_start, str_trim_end, trim_char_back, trim_char_front,
    trim_ws,
};

verus! {

/// One option of a command, as extracted from the CLI's JSON dump.
#[derive(Debug, Clone)]
pub struct CliOption {
    /// The long flag (for example `wipe`)
    pub long: String,
    /// The short flag if any (for example `h`)
    pub short: Option<String>,
    /// The value name if the option takes an argument
    pub value_name: Option<String>,
    /// The default value if any
    pub default: Option<String>,
    /// The help text
    pub help: String,
    /// Possible values for enumerated options
    pub possible_values: Vec<String>,
    /// Whether the option is required
    pub required: bool,
    /// Whether this is a boolean flag
    pub is_boolean: bool,
}

/// One command from the CLI's JSON dump.
#[derive(Debug)]
pub struct CliCommand {
    /// The command's name
    pub name: String,
    /// The command's description
    pub about: Option<String>,
    /// Its options
    pub options: Vec<CliOption>,
    /// Its positional arguments
    pub positionals: Vec<CliPositional>,
    /// Its subcommands
    pub subcommands: Vec<CliCommand>,
}

/// One positional argument from the CLI's JSON dump.
#[derive(Debug, Clone)]
pub struct CliPositional {
    /// The argument's name
    pub name: String,
    /// Its help text
    pub help: Option<String>,
    /// Whether it is required
    pub required: bool,
    /// Whether it may repeat
    pub multiple: bool,
}

/// What `str::to_uppercase` returns for a given character sequence.
pub uninterp spec fn upper_of(s: Seq<char>) -> Seq<char>;

/// Relies on `str::to_uppercase`: the Unicode uppercase form of the string,
/// a function of its characters alone, which is what `upper_of` names; an
/// empty string stays empty.
#[verifier::external_body]
fn to_uppercase(s: &str) -> (r: String)
    ensures
        r@ == upper_of(s@),
        s@.len() == 0 ==> r@.len() == 0,
{
    s.to_uppercase()
}

/// The parts joined with single spaces.
pub open spec fn join_spaces(parts: Seq<Seq<char>>) -> Seq<char>
    decreases parts.len(),
{
    if parts.len() == 0 {
        Seq::empty()
    } else if parts.len() == 1 {
        parts[0]
    } else {
        join_spaces(parts.drop_last()) + seq![' '] + parts.last()
    }
}

/// A command's full invocation path: `c`, the parent path, then its name,
/// space-separated.
pub open spec fn full_cmd_path(parent: Seq<Seq<char>>, name: Seq<char>) -> Seq<char> {
    join_spaces(seq!["c"@] + parent + seq![name])
}

/// A command's description text: its `about`, or empty.
pub open spec fn about_text(about: Option<String>) -> Seq<char> {
    match about {
        Some(a) => a@,
        None => Seq::empty(),
    }
}

/// One table row for a subcommand: its bold full path and its description
/// with trailing periods trimmed.
pub open spec fn subcommand_row(cmd: CliCommand, parent: Seq<Seq<char>>) -> Seq<char> {
    "| **"@ + full_cmd_path(parent, cmd.name@) + "** | "@ + trim_char_back(
        about_text(cmd.about),
        '.',
    ) + " |\n"@
}

/// The table rows for a sequence of subcommands, in order.
pub open spec fn subcommand_rows(subs: Seq<CliCommand>, parent: Seq<Seq<char>>) -> Seq<char>
    decreases subs.len(),
{
    if subs.len() == 0 {
        Seq::empty()
    } else {
        subcommand_rows(subs.drop_last(), parent) + subcommand_row(subs.last(), parent)
    }
}

/// The whole subcommand table: header, rows, and a closing blank line; empty
/// when there are no subcommands.
pub open spec fn subcommands_table(subs: Seq<CliCommand>, parent: Seq<Seq<char>>) -> Seq<char> {
    if subs.len() == 0 {
        Seq::empty()
    } else {
        "| Command | Description |\n|---------|-------------|\n"@ + subcommand_rows(subs, parent)
            + "\n"@
    }
}

/// Builds a command's full invocation path, exactly [`full_cmd_path`].
fn build_cmd_path(parent_path: &Vec<String>, name: &str) -> (r: String)
    ensures
        r@ == full_cmd_path(parent_path.deep_view(), name@),
{
    let ghost parent = parent_path.deep_view();
    let mut path = String::from_str("c");
    proof {
        assert(seq!["c"@] + parent.take(0) =~= seq!["c"@]);
    }
    let n = parent_path.len();
    let mut i: usize = 0;
    while i < n
        invariant
            parent == parent_path.deep_view(),
            n == parent_path@.len(),
            i <= n,
            path@ == join_spaces(seq!["c"@] + parent.take(i as int)),
        decreases n - i,
    {
        path.append(" ");
        path.append(parent_path[i].as_str());
        proof {
            reveal_strlit(" ");
            let parts = seq!["c"@] + parent.take(i as int + 1);
            assert(parts.drop_last() =~= seq!["c"@] + parent.take(i as int));
            assert(parts.last() == parent[i as int]);
            assert(parent_path@[i as int]@ == parent[i as int]);
            assert(path@ =~= join_spaces(parts));
        }
        i = i + 1;
    }
    path.append(" ");
    path.append(name);
    proof {
        reveal_strlit(" ");
        assert(parent.take(n as int) =~= parent);
        let parts = seq!["c"@] + parent + seq![name@];
        assert(parts.drop_last() =~= seq!["c"@] + parent);
        assert(parts.last() == name@);
        assert(path@ =~= join_spaces(parts));
    }
    path
}

/// Renders subcommands as a markdown table, exactly [`subcommands_table`].
pub fn format_subcommands_as_table(subcommands: &Vec<CliCommand>, parent_path: &Vec<String>) -> (r:
    String)
    ensures
        r@ == subcommands_table(subcommands@, parent_path.deep_view()),
{
    let ghost parent = parent_path.deep_view();
    if subcommands.len() == 0 {
        return String::new();
    }
    let mut result = String::from_str("| Command | Description |\n|---------|-------------|\n");
    let n = subcommands.len();
    let mut i: usize = 0;
    while i < n
        invariant
            parent == parent_path.deep_view(),
            n == subcommands@.len(),
            i <= n,
            result@ == "| Command | Description |\n|---------|-------------|\n"@
                + subcommand_rows(subcommands@.take(i as int), parent),
        decreases n - i,
    {
        result.append("| **");
        result.append(build_cmd_path(parent_path, subcommands[i].name.as_str()).as_str());
        result.append("** | ");
        let description = match &subcommands[i].about {
            Some(a) => str_trim_char_end(a.as_str(), '.'),
            None => String::new(),
        };
        result.append(description.as_str());
        result.append(" |\n");
        proof {
            assert(subcommands@.take(i as int + 1).drop_last() =~= subcommands@.take(i as int));
            assert(subcommands@.take(i as int + 1).last() == subcommands@[i as int]);
            assert(trim_char_back(Seq::<char>::empty(), '.') =~= Seq::<char>::empty());
            assert(result@ =~= "| Command | Description |\n|---------|-------------|\n"@
                + subcommand_rows(subcommands@.take(i as int + 1), parent));
        }
        i = i + 1;
    }
    result.append("\n");
    proof {
        assert(subcommands@.take(n as int) =~= subcommands@);
        assert(result@ =~= subcommands_table(subcommands@, parent));
    }
    result
}

/// The markdown block for one positional argument: its name in bold
/// uppercase, its help if present, and a required note if it is required.
pub open spec fn positional_block(p: CliPositional) -> Seq<char> {
    let head = "**"@ + upper_of(p.name@) + "**\n\n"@;
    let with_help = match p.help {
        Some(h) => head + "    "@ + h@ + "\n\n"@,
        None => head,
    };
    if p.required {
        with_help + "    This argument is required.\n\n"@
    } else {
        with_help
    }
}

/// The markdown blocks for the positionals, in order.
pub open spec fn positional_blocks(ps: Seq<CliPositional>) -> Seq<char>
    decreases ps.len(),
{
    if ps.len() == 0 {
        Seq::empty()
    } else {
        positional_blocks(ps.drop_last()) + positional_block(ps.last())
    }
}

/// The flag line of one option: the short flag if present, the long flag,
/// and the value name unless the option is a plain flag.
pub open spec fn option_flag_line(o: CliOption) -> Seq<char> {
    let short_part = match o.short {
        Some(s) => "**-"@ + s@ + "**, "@,
        None => Seq::<char>::empty(),
    };
    let base = short_part + "**--"@ + o.long@ + "**"@;
    match o.value_name {
        Some(vn) => base + "=*"@ + vn@ + "*"@,
        None => base,
    }
}

/// The bullet lines for an option's possible values, in order.
pub open spec fn possible_value_lines(vs: Seq<String>) -> Seq<char>
    decreases vs.len(),
{
    if vs.len() == 0 {
        Seq::empty()
    } else {
        possible_value_lines(vs.drop_last()) + "    - "@ + vs.last()@ + "\n"@
    }
}

/// The markdown block for one option: its flag line, its help, its possible
/// values when it is not a boolean flag, and its default if present.
pub open spec fn option_block(o: CliOption) -> Seq<char> {
    let head = option_flag_line(o) + "\n\n"@ + "    "@ + o.help@ + "\n\n"@;
    let with_pv = if o.possible_values@.len() > 0 && !o.is_boolean {
        head + "    Possible values:\n"@ + possible_value_lines(o.possible_values@) + "\n"@
    } else {
        head
    };
    match o.default {
        Some(d) => with_pv + "    Default: "@ + d@ + "\n\n"@,
        None => with_pv,
    }
}

/// The markdown blocks for the options, in order.
pub open spec fn option_blocks(os: Seq<CliOption>) -> Seq<char>
    decreases os.len(),
{
    if os.len() == 0 {
        Seq::empty()
    } else {
        option_blocks(os.drop_last()) + option_block(os.last())
    }
}

/// The whole options section: positional blocks first, then option blocks.
pub open spec fn options_markdown(os: Seq<CliOption>, ps: Seq<CliPositional>) -> Seq<char> {
    positional_blocks(ps) + option_blocks(os)
}

/// Renders options and positionals as markdown, exactly [`options_markdown`].
#[verifier::rlimit(60)]
pub fn format_options_as_markdown(options: &Vec<CliOption>, positionals: &Vec<CliPositional>) -> (r:
    String)
    ensures
        r@ == options_markdown(options@, positionals@),
{
    let mut result = String::new();
    let np = positionals.len();
    let mut i: usize = 0;
    proof {
        assert(result@ =~= positional_blocks(positionals@.take(0)));
    }
    while i < np
        invariant
            np == positionals@.len(),
            i <= np,
            result@ == positional_blocks(positionals@.take(i as int)),
        decreases np - i,
    {
        result.append("**");
        result.append(to_uppercase(positionals[i].name.as_str()).as_str());
        result.append("**\n\n");
        match &positionals[i].help {
            Some(h) => {
                result.append("    ");
                result.append(h.as_str());
                result.append("\n\n");
            },
            None => {},
        }
        if positionals[i].required {
            result.append("    This argument is required.\n\n");
        }
        proof {
            assert(positionals@.take(i as int + 1).drop_last() =~= positionals@.take(i as int));
            assert(positionals@.take(i as int + 1).last() == positionals@[i as int]);
            assert(result@ =~= positional_blocks(positionals@.take(i as int + 1)));
        }
        i = i + 1;
    }
    proof {
        assert(positionals@.take(np as int) =~= positionals@);
    }
    let no = options.len();
    let mut j: usize = 0;
    while j < no
        invariant
            np == positionals@.len(),
            no == options@.len(),
            j <= no,
            result@ == positional_blocks(positionals@) + option_blocks(options@.take(j as int)),
        decreases no - j,
    {
        append_option_block(&mut result, &options[j]);
        proof {
            assert(options@.take(j as int + 1).drop_last() =~= options@.take(j as int));
            assert(options@.take(j as int + 1).last() == options@[j as int]);
            assert(result@ =~= positional_blocks(positionals@) + option_blocks(
                options@.take(j as int + 1),
            ));
        }
        j = j + 1;
    }
    proof {
        assert(options@.take(no as int) =~= options@);
    }
    result
}

/// Appends the flag line for one option.
fn append_flag_line(result: &mut String, o: &CliOption)
    ensures
        final (result)@ == old(result)@ + option_flag_line(*o),
{
    match &o.short {
        Some(s) => {
            result.append("**-");
            result.append(s.as_str());
            result.append("**, ");
        },
        None => {},
    }
    result.append("**--");
    result.append(o.long.as_str());
    result.append("**");
    match &o.value_name {
        Some(vn) => {
            result.append("=*");
            result.append(vn.as_str());
            result.append("*");
        },
        None => {},
    }
    proof {
        assert(result@ =~= old(result)@ + option_flag_line(*o));
    }
}

/// Appends the possible-values section for one option's values.
fn append_possible_values(result: &mut String, vs: &Vec<String>)
    ensures
        final (result)@ == old(result)@ + "    Possible values:\n"@ + possible_value_lines(vs@)
            + "\n"@,
{
    result.append("    Possible values:\n");
    let nv = vs.len();
    let ghost before_vals = result@;
    let mut k: usize = 0;
    proof {
        assert(possible_value_lines(vs@.take(0)) =~= Seq::<char>::empty());
        assert(result@ =~= before_vals + possible_value_lines(vs@.take(0)));
    }
    while k < nv
        invariant
            nv == vs@.len(),
            k <= nv,
            result@ == before_vals + possible_value_lines(vs@.take(k as int)),
        decreases nv - k,
    {
        result.append("    - ");
        result.append(vs[k].as_str());
        result.append("\n");
        proof {
            assert(vs@.take(k as int + 1).drop_last() =~= vs@.take(k as int));
            assert(vs@.take(k as int + 1).last() == vs@[k as int]);
            assert(result@ =~= before_vals + possible_value_lines(vs@.take(k as int + 1)));
        }
        k = k + 1;
    }
    result.append("\n");
    proof {
        assert(vs@.take(nv as int) =~= vs@);
        assert(result@ =~= old(result)@ + "    Possible values:\n"@ + possible_value_lines(vs@)
            + "\n"@);
    }
}

/// Appends the markdown block for one option.
fn append_option_block(result: &mut String, o: &CliOption)
    ensures
        final (result)@ == old(result)@ + option_block(*o),
{
    append_flag_line(result, o);
    result.append("\n\n");
    result.append("    ");
    result.append(o.help.as_str());
    result.append("\n\n");
    proof {
        assert(result@ =~= old(result)@ + (option_flag_line(*o) + "\n\n"@ + "    "@ + o.help@
            + "\n\n"@));
    }
    let ghost head_done = result@;
    if o.possible_values.len() > 0 && !o.is_boolean {
        append_possible_values(result, &o.possible_values);
    }
    let ghost pv_done = result@;
    match &o.default {
        Some(d) => {
            result.append("    Default: ");
            result.append(d.as_str());
            result.append("\n\n");
            proof {
                assert(result@ =~= pv_done + ("    Default: "@ + d@ + "\n\n"@));
            }
        },
        None => {},
    }
    proof {
        assert(result@ =~= old(result)@ + option_block(*o));
    }
}

/// The first command in a sequence bearing a given name.
pub open spec fn find_in_commands(cmds: Seq<CliCommand>, name: Seq<char>) -> Option<CliCommand>
    decreases cmds.len(),
{
    if cmds.len() == 0 {
        None
    } else if cmds[0].name@ == name {
        Some(cmds[0])
    } else {
        find_in_commands(cmds.drop_first(), name)
    }
}

/// The command reached by following a path of subcommand names.
pub open spec fn find_path(cli: CliCommand, path: Seq<Seq<char>>) -> Option<CliCommand>
    decreases path.len(),
{
    if path.len() == 0 {
        Some(cli)
    } else {
        match find_in_commands(cli.subcommands@, path[0]) {
            Some(c) => find_path(c, path.skip(1)),
            None => None,
        }
    }
}

/// Resolves a subcommand path, exactly [`find_path`]: each path element
/// selects the first subcommand of that name.
pub fn find_subcommand<'a>(cli: &'a CliCommand, path: &Vec<String>) -> (r: Option<&'a CliCommand>)
    ensures
        r is Some <==> find_path(*cli, path.deep_view()) is Some,
        r matches Some(c) ==> *c == find_path(*cli, path.deep_view())->0,
{
    let ghost full = path.deep_view();
    let mut cur: &'a CliCommand = cli;
    let n = path.len();
    let mut idx: usize = 0;
    proof {
        assert(full.skip(0) =~= full);
    }
    while idx < n
        invariant
            full == path.deep_view(),
            n == path@.len(),
            idx <= n,
            find_path(*cli, full) == find_path(*cur, full.skip(idx as int)),
        decreases n - idx,
    {
        let ghost want = full[idx as int];
        proof {
            assert(path@[idx as int]@ == want);
        }
        let subs = &cur.subcommands;
        let ns = subs.len();
        let mut j: usize = 0;
        proof {
            assert(subs@.skip(0) =~= subs@);
        }
        loop
            invariant
                n == path@.len(),
                idx < n,
                want == path@[idx as int]@,
                ns == subs@.len(),
                j <= ns,
                find_in_commands(subs@, want) == find_in_commands(subs@.skip(j as int), want),
            ensures
                (j < ns && find_in_commands(subs@, want) == Some(subs@[j as int])) || (j == ns
                    && find_in_commands(subs@, want) is None),
            decreases ns - j,
        {
            if j == ns {
                break ;
            }
            if crate::strutil::str_eq(subs[j].name.as_str(), path[idx].as_str()) {
                proof {
                    assert(subs@.skip(j as int)[0] == subs@[j as int]);
                }
                break ;
            }
            proof {
                assert(subs@.skip(j as int).drop_first() =~= subs@.skip(j as int + 1));
                assert(subs@.skip(j as int)[0] == subs@[j as int]);
            }
            j = j + 1;
        }
        if j == ns {
            proof {
                assert(find_path(*cur, full.skip(idx as int)) is None);
            }
            return None;
        }
        cur = &subs[j];
        proof {
            assert(full.skip(idx as int)[0] == want);
            assert(full.skip(idx as int).skip(1) =~= full.skip(idx as int + 1));
        }
        idx = idx + 1;
    }
    proof {
        assert(full.skip(n as int) =~= Seq::<Seq<char>>::empty());
    }
    Some(cur)
}

/// What splicing generated text into a markdown file produced.
#[derive(Debug)]
pub enum MarkdownUpdate {
    /// The file has no begin marker; it is left alone.
    NoMarkers,
    /// The file has a begin marker but no end marker; that is an error.
    MissingEnd,
    /// The new file content.
    Updated(String),
}

/// The subcommands begin marker.
pub open spec fn begin_subcommands() -> Seq<char> {
    "<!-- BEGIN GENERATED SUBCOMMANDS -->"@
}

/// The subcommands end marker.
pub open spec fn end_subcommands() -> Seq<char> {
    "<!-- END GENERATED SUBCOMMANDS -->"@
}

/// The options begin marker.
pub open spec fn begin_options() -> Seq<char> {
    "<!-- BEGIN GENERATED OPTIONS -->"@
}

/// The options end marker.
pub open spec fn end_options() -> Seq<char> {
    "<!-- END GENERATED OPTIONS -->"@
}

/// Splices the generated subcommand table into a markdown page between the
/// subcommand markers: everything before the first begin marker (with its
/// trailing whitespace trimmed), one blank line, the begin marker, a
/// newline, the table, the end marker, and whatever followed the first end
/// marker. A page without a begin marker is left alone; one with a begin
/// marker but no end marker is an error.
pub fn update_markdown_with_subcommands(
    content: &str,
    subcommands: &Vec<CliCommand>,
    parent_path: &Vec<String>,
) -> (r: MarkdownUpdate)
    ensures
        r is NoMarkers <==> find_sub(content@, begin_subcommands()) is None,
        find_sub(content@, begin_subcommands()) matches Some(i) ==> {
            let rest = content@.skip(i + begin_subcommands().len());
            &&& (r is MissingEnd <==> find_sub(rest, end_subcommands()) is None)
            &&& (find_sub(rest, end_subcommands()) matches Some(j) ==> r matches MarkdownUpdate::Updated(out)
                && out@ == crate::strutil::trim_back(content@.take(i)) + "\n\n"@
                + begin_subcommands() + "\n"@ + subcommands_table(
                subcommands@,
                parent_path.deep_view(),
            ) + end_subcommands() + rest.skip(j + end_subcommands().len()))
        },
{
    let begin_marker = "<!-- BEGIN GENERATED SUBCOMMANDS -->";
    let end_marker = "<!-- END GENERATED SUBCOMMANDS -->";
    let n = content.unicode_len();
    match str_find(content, begin_marker) {
        None => MarkdownUpdate::NoMarkers,
        Some(i) => {
            let bl = begin_marker.unicode_len();
            let rest = content.substring_char(i + bl, n).to_owned();
            proof {
                assert(content@.subrange(i as int + bl as int, n as int) =~= content@.skip(
                    i as int + bl as int,
                ));
            }
            match str_find(rest.as_str(), end_marker) {
                None => MarkdownUpdate::MissingEnd,
                Some(j) => {
                    let el = end_marker.unicode_len();
                    let rn = rest.as_str().unicode_len();
                    let after = rest.as_str().substring_char(j + el, rn);
                    let mut out = str_trim_end(content.substring_char(0, i));
                    out.append("\n\n");
                    out.append(begin_marker);
                    out.append("\n");
                    out.append(format_subcommands_as_table(subcommands, parent_path).as_str());
                    out.append(end_marker);
                    out.append(after);
                    proof {
                        assert(content@.subrange(0, i as int) =~= content@.take(i as int));
                        assert(rest@.subrange(j as int + el as int, rn as int) =~= rest@.skip(
                            j as int + el as int,
                        ));
                        assert(out@ =~= crate::strutil::trim_back(content@.take(i as int))
                            + "\n\n"@ + begin_subcommands() + "\n"@ + subcommands_table(
                            subcommands@,
                            parent_path.deep_view(),
                        ) + end_subcommands() + rest@.skip(j as int + el as int));
                    }
                    MarkdownUpdate::Updated(out)
                },
            }
        },
    }
}

/// The page text before the options markers, normalized: trailing whitespace
/// trimmed, and a trailing `# OPTIONS` heading (which the splice re-adds)
/// removed along with the whitespace before it.
pub open spec fn options_before(b: Seq<char>) -> Seq<char> {
    let t = crate::strutil::trim_back(b);
    if crate::strutil::has_suffix(t, "# OPTIONS"@) {
        crate::strutil::trim_back(t.take(t.len() - "# OPTIONS"@.len()))
    } else {
        t
    }
}

/// Splices the generated options section into a markdown page between the
/// options markers: the normalized text before the first begin marker, then
/// — when there is anything to document — a blank line, an `# OPTIONS`
/// heading, a blank line, the begin marker, a newline, the generated
/// section, the end marker, and whatever followed the first end marker;
/// with nothing to document the heading and section are omitted. A page
/// without a begin marker is left alone; one with a begin marker but no end
/// marker is an error.
pub fn update_markdown_with_options(
    content: &str,
    options: &Vec<CliOption>,
    positionals: &Vec<CliPositional>,
) -> (r: MarkdownUpdate)
    ensures
        r is NoMarkers <==> find_sub(content@, begin_options()) is None,
        find_sub(content@, begin_options()) matches Some(i) ==> {
            let rest = content@.skip(i + begin_options().len());
            &&& (r is MissingEnd <==> find_sub(rest, end_options()) is None)
            &&& (find_sub(rest, end_options()) matches Some(j) ==> r matches MarkdownUpdate::Updated(out)
                && out@ == if options@.len() > 0 || positionals@.len() > 0 {
                    options_before(content@.take(i)) + "\n\n# OPTIONS\n\n"@ + begin_options()
                        + "\n"@ + options_markdown(options@, positionals@) + end_options()
                        + rest.skip(j + end_options().len())
                } else {
                    options_before(content@.take(i)) + "\n\n"@ + begin_options() + "\n"@
                        + end_options() + rest.skip(j + end_options().len())
                })
        },
{
    let begin_marker = "<!-- BEGIN GENERATED OPTIONS -->";
    let end_marker = "<!-- END GENERATED OPTIONS -->";
    let n = content.unicode_len();
    match str_find(content, begin_marker) {
        None => MarkdownUpdate::NoMarkers,
        Some(i) => {
            let bl = begin_marker.unicode_len();
            let rest = content.substring_char(i + bl, n).to_owned();
            proof {
                assert(content@.subrange(i as int + bl as int, n as int) =~= content@.skip(
                    i as int + bl as int,
                ));
            }
            match str_find(rest.as_str(), end_marker) {
                None => MarkdownUpdate::MissingEnd,
                Some(j) => {
                    let el = end_marker.unicode_len();
                    let rn = rest.as_str().unicode_len();
                    let after = rest.as_str().substring_char(j + el, rn);
                    proof {
                        assert(content@.subrange(0, i as int) =~= content@.take(i as int));
                        assert(rest@.subrange(j as int + el as int, rn as int) =~= rest@.skip(
                            j as int + el as int,
                        ));
                    }
                    let mut before = str_trim_end(content.substring_char(0, i));
                    let heading = "# OPTIONS";
                    if str_ends_with(before.as_str(), heading) {
                        let hl = heading.unicode_len();
                        let bn = before.as_str().unicode_len();
                        let shorter = before.as_str().substring_char(0, bn - hl).to_owned();
                        proof {
                            reveal_strlit("# OPTIONS");
                            assert(before@.subrange(0, bn as int - hl as int) =~= before@.take(
                                before@.len() - "# OPTIONS"@.len(),
                            ));
                        }
                        before = str_trim_end(shorter.as_str());
                    }
                    proof {
                        assert(before@ == options_before(content@.take(i as int)));
                    }
                    let mut out = before;
                    if options.len() > 0 || positionals.len() > 0 {
                        out.append("\n\n# OPTIONS\n\n");
                        out.append(begin_marker);
                        out.append("\n");
                        out.append(format_options_as_markdown(options, positionals).as_str());
                        out.append(end_marker);
                        out.append(after);
                        proof {
                            assert(out@ =~= options_before(content@.take(i as int))
                                + "\n\n# OPTIONS\n\n"@ + begin_options() + "\n"@
                                + options_markdown(options@, positionals@) + end_options()
                                + rest@.skip(j as int + el as int));
                        }
                    } else {
                        out.append("\n\n");
                        out.append(begin_marker);
                        out.append("\n");
                        out.append(end_marker);
                        out.append(after);
                        proof {
                            assert(out@ =~= options_before(content@.take(i as int)) + "\n\n"@
                                + begin_options() + "\n"@ + end_options() + rest@.skip(
                                j as int + el as int,
                            ));
                        }
                    }
                    MarkdownUpdate::Updated(out)
                },
            }
        },
    }
}

/// Normalizes a git revision into a version string: surrounding whitespace
/// trimmed, leading `v` markers removed, and every `-` replaced by `.`.
pub fn gitrev_to_version(v: &str) -> (r: String)
    ensures
        r@ == replace_char(trim_char_front(trim_ws(v@), 'v'), '-', '.'),
{
    let trimmed = str_trim(v);
    let unprefixed = str_trim_char_start(trimmed.as_str(), 'v');
    str_replace_dash_with_dot(unprefixed.as_str())
}

/// The first pair `(sub, subsub)` among one command's subcommands whose
/// names joined with a dash equal `part`, as the two names.
pub open spec fn find_pair_in(sub: CliCommand, part: Seq<char>) -> Option<(Seq<char>, Seq<char>)> {
    match first_matching_subsub(sub.name@, sub.subcommands@, part) {
        Some(b) => Some((sub.name@, b)),
        None => None,
    }
}

/// The name of the first command in `subs` for which `name-<sub>` is `part`.
pub open spec fn first_matching_subsub(name: Seq<char>, subs: Seq<CliCommand>, part: Seq<
    char,
>) -> Option<Seq<char>>
    decreases subs.len(),
{
    if subs.len() == 0 {
        None
    } else if name + seq!['-'] + subs[0].name@ == part {
        Some(subs[0].name@)
    } else {
        first_matching_subsub(name, subs.drop_first(), part)
    }
}

/// The first dashed pair over a sequence of commands.
pub open spec fn find_nested_pair(subs: Seq<CliCommand>, part: Seq<char>) -> Option<(
    Seq<char>,
    Seq<char>,
)>
    decreases subs.len(),
{
    if subs.len() == 0 {
        None
    } else {
        match find_pair_in(subs[0], part) {
            Some(p) => Some(p),
            None => find_nested_pair(subs.drop_first(), part),
        }
    }
}

/// The command path that a man-page filename part names: a top-level
/// subcommand of that name, or the first `sub-subsub` pair whose dashed
/// names equal the part.
pub open spec fn command_path_for(cli: CliCommand, part: Seq<char>) -> Option<Seq<Seq<char>>> {
    match find_in_commands(cli.subcommands@, part) {
        Some(c) => Some(seq![c.name@]),
        None => match find_nested_pair(cli.subcommands@, part) {
            Some(p) => Some(seq![p.0, p.1]),
            None => None,
        },
    }
}

/// Resolves a man-page filename part to a command path, exactly
/// [`command_path_for`].
pub fn find_command_path_for_filename(cli: &CliCommand, filename_part: &str) -> (r: Option<
    Vec<String>,
>)
    ensures
        r is Some <==> command_path_for(*cli, filename_part@) is Some,
        r matches Some(v) ==> Some(v.deep_view()) == command_path_for(*cli, filename_part@),
{
    let ghost part = filename_part@;
    let subs = &cli.subcommands;
    let ns = subs.len();
    let mut j: usize = 0;
    proof {
        assert(subs@.skip(0) =~= subs@);
    }
    loop
        invariant
            part == filename_part@,
            ns == subs@.len(),
            j <= ns,
            find_in_commands(subs@, part) == find_in_commands(subs@.skip(j as int), part),
        ensures
            (j < ns && find_in_commands(subs@, part) == Some(subs@[j as int])) || (j == ns
                && find_in_commands(subs@, part) is None),
        decreases ns - j,
    {
        if j == ns {
            break ;
        }
        proof {
            assert(subs@.skip(j as int)[0] == subs@[j as int]);
            assert(subs@.skip(j as int).drop_first() =~= subs@.skip(j as int + 1));
        }
        if crate::strutil::str_eq(subs[j].name.as_str(), filename_part) {
            break ;
        }
        j = j + 1;
    }
    if j < ns {
        let path = vec![subs[j].name.clone()];
        proof {
            assert(path.deep_view() =~= seq![subs@[j as int].name@]);
        }
        return Some(path);
    }
    let mut m: usize = 0;
    proof {
        assert(subs@.skip(0) =~= subs@);
    }
    while m < ns
        invariant
            part == filename_part@,
            subs@ == (*cli).subcommands@,
            ns == subs@.len(),
            m <= ns,
            find_in_commands(subs@, part) is None,
            find_nested_pair(subs@, part) == find_nested_pair(subs@.skip(m as int), part),
        decreases ns - m,
    {
        proof {
            assert(subs@.skip(m as int)[0] == subs@[m as int]);
            assert(subs@.skip(m as int).drop_first() =~= subs@.skip(m as int + 1));
        }
        let inner = &subs[m].subcommands;
        let ni = inner.len();
        let mut k: usize = 0;
        proof {
            assert(inner@.skip(0) =~= inner@);
        }
        loop
            invariant
                part == filename_part@,
                ns == subs@.len(),
                m < ns,
                inner == &subs@[m as int].subcommands,
                ni == inner@.len(),
                k <= ni,
                first_matching_subsub(subs@[m as int].name@, inner@, part)
                    == first_matching_subsub(
                    subs@[m as int].name@,
                    inner@.skip(k as int),
                    part,
                ),
            ensures
                (k < ni && first_matching_subsub(subs@[m as int].name@, inner@, part) == Some(
                    inner@[k as int].name@,
                )) || (k == ni && first_matching_subsub(subs@[m as int].name@, inner@, part)
                    is None),
            decreases ni - k,
        {
            if k == ni {
                break ;
            }
            proof {
                assert(inner@.skip(k as int)[0] == inner@[k as int]);
                assert(inner@.skip(k as int).drop_first() =~= inner@.skip(k as int + 1));
            }
            let mut pattern = subs[m].name.clone();
            pattern.append("-");
            pattern.append(inner[k].name.as_str());
            proof {
                reveal_strlit("-");
                assert(pattern@ =~= subs@[m as int].name@ + seq!['-'] + inner@[k as int].name@);
            }
            if crate::strutil::str_eq(pattern.as_str(), filename_part) {
                break ;
            }
            k = k + 1;
        }
        if k < ni {
            let path = vec![subs[m].name.clone(), inner[k].name.clone()];
            proof {
                assert(path.deep_view() =~= seq![
                    subs@[m as int].name@,
                    inner@[k as int].name@,
                ]);
                assert(find_nested_pair(subs@.skip(m as int), part) == Some(
                    (subs@[m as int].name@, inner@[k as int].name@),
                ));
            }
            return Some(path);
        }
        m = m + 1;
    }
    proof {
        assert(subs@.skip(ns as int) =~= Seq::<CliCommand>::empty());
    }
    None
}

/// The command part of a man-page source filename: for `c-<part>.<sec>.md`
/// the `<part>` before the final dot-separated section, and nothing for any
/// other shape.
pub open spec fn man_filename_part(f: Seq<char>) -> Option<Seq<char>> {
    if crate::strutil::has_prefix(f, "c-"@) {
        let t = f.skip("c-"@.len() as int);
        if crate::strutil::has_suffix(t, ".md"@) {
            let u = t.take(t.len() - ".md"@.len());
            match last_index_of(u, '.') {
                Some(k) => Some(u.take(k)),
                None => None,
            }
        } else {
            None
        }
    } else {
        None
    }
}

/// The position of the last occurrence of `c` in `s`.
pub open spec fn last_index_of(s: Seq<char>, c: char) -> Option<int>
    decreases s.len(),
{
    if s.len() == 0 {
        None
    } else if s.last() == c {
        Some(s.len() - 1)
    } else {
        last_index_of(s.drop_last(), c)
    }
}

/// Extracts the command part of a man-page source filename, exactly
/// [`man_filename_part`].
pub fn man_filename_command_part(filename: &str) -> (r: Option<String>)
    ensures
        r is Some <==> man_filename_part(filename@) is Some,
        r matches Some(s) ==> Some(s@) == man_filename_part(filename@),
{
    proof {
        reveal_strlit("c-");
        reveal_strlit(".md");
    }
    if !crate::strutil::str_starts_with(filename, "c-") {
        return None;
    }
    let n = filename.unicode_len();
    let tail = filename.substring_char(2, n).to_owned();
    proof {
        assert(filename@.subrange(2, n as int) =~= filename@.skip(2));
    }
    if !crate::strutil::str_ends_with(tail.as_str(), ".md") {
        return None;
    }
    let tn = n - 2;
    let un = tn - 3;
    let stem = tail.as_str().substring_char(0, un).to_owned();
    let ghost u = filename@.skip(2).take(filename@.skip(2).len() - 3);
    proof {
        assert(tail@.subrange(0, un as int) =~= u);
    }
    let mut b: usize = un;
    proof {
        assert(u.take(un as int) =~= u);
    }
    loop
        invariant
            un as int == u.len(),
            stem@ == u,
            b <= un,
            last_index_of(u, '.') == last_index_of(u.take(b as int), '.'),
        ensures
            b <= un,
            (b > 0 && last_index_of(u, '.') == Some(b as int - 1)) || (b == 0 && last_index_of(
                u,
                '.',
            ) is None),
        decreases b,
    {
        if b == 0 {
            proof {
                assert(u.take(0) =~= Seq::<char>::empty());
            }
            break ;
        }
        proof {
            assert(u.take(b as int).drop_last() =~= u.take(b as int - 1));
            assert(u.take(b as int).last() == u[b as int - 1]);
        }
        if stem.as_str().get_char(b - 1) == '.' {
            break ;
        }
        b = b - 1;
    }
    if b == 0 {
        return None;
    }
    let piece = stem.as_str().substring_char(0, b - 1).to_owned();
    proof {
        assert(u.take(un as int) =~= u);
        assert(stem@.subrange(0, b as int - 1) =~= u.take(b as int - 1));
    }
    Some(piece)
}

} // verus!
