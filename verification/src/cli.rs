use vstd::prelude::*;

use crate::deps::{name_valid, validate_name, Error};
use crate::repository::{first_index, is_first_index};
use crate::deps::invalid_name_text;
use crate::text::{debug_quoted, quoted_text, seq_starts_with, str_equal, str_starts_with};

verus! {

/// The tool's usage text.
pub const USAGE: &'static str = "Usage:\n  caliber sync [--project-root DIR] [--override NAME=PATH ...] [--allow-dirty-overrides]\n  caliber status [--project-root DIR]\n  caliber doctor [--project-root DIR] [--library PATH]\n  caliber check [--project-root DIR] [--library PATH]\n  caliber update NAME [--project-root DIR]\n  caliber pin NAME LOCAL-CHECKOUT [--project-root DIR]";

/// `--project-root`.
pub open spec fn project_root_flag() -> Seq<char> {
    seq!['-', '-', 'p', 'r', 'o', 'j', 'e', 'c', 't', '-', 'r', 'o', 'o', 't']
}

/// `--override`.
pub open spec fn override_flag() -> Seq<char> {
    seq!['-', '-', 'o', 'v', 'e', 'r', 'r', 'i', 'd', 'e']
}

/// `--allow-dirty-overrides`.
pub open spec fn allow_dirty_flag() -> Seq<char> {
    seq![
        '-', '-', 'a', 'l', 'l', 'o', 'w', '-', 'd', 'i', 'r', 't', 'y', '-', 'o', 'v', 'e', 'r',
        'r', 'i', 'd', 'e', 's',
    ]
}

/// `--library`.
pub open spec fn library_flag() -> Seq<char> {
    seq!['-', '-', 'l', 'i', 'b', 'r', 'a', 'r', 'y']
}

/// `--`, the prefix of an option.
pub open spec fn option_prefix() -> Seq<char> {
    seq!['-', '-']
}

/// The arguments as character sequences.
pub open spec fn arg_views(args: Seq<String>) -> Seq<Seq<char>> {
    args.map_values(|a: String| a@)
}

/// `r` with `prefix` put before its values.
pub open spec fn prepend_values(prefix: Seq<Seq<char>>, r: Result<Seq<Seq<char>>, Seq<char>>) -> Result<
    Seq<Seq<char>>,
    Seq<char>,
> {
    match r {
        Ok(v) => Ok(prefix + v),
        Err(e) => Err(e),
    }
}

/// The positional values of `args` from position `i` on: the values of
/// `--project-root` and `--override` are skipped, `--allow-dirty-overrides`
/// takes none, and any other argument that begins with `--` is an unknown
/// option, the error.
pub open spec fn positional_values(args: Seq<Seq<char>>, i: int) -> Result<Seq<Seq<char>>, Seq<char>>
    decreases args.len() + 1 - i,
{
    if i < 0 || i >= args.len() {
        Ok(Seq::empty())
    } else if args[i] == project_root_flag() || args[i] == override_flag() {
        positional_values(args, i + 2)
    } else if args[i] == allow_dirty_flag() {
        positional_values(args, i + 1)
    } else if seq_starts_with(args[i], option_prefix()) {
        Err(args[i])
    } else {
        prepend_values(seq![args[i]], positional_values(args, i + 1))
    }
}

/// The message for an option that the tool does not know.
pub open spec fn unknown_option_text(value: Seq<char>) -> Seq<char> {
    "unknown option "@ + value
}

/// The message for a missing positional argument, followed by the usage text.
pub open spec fn missing_argument_text(label: Seq<char>) -> Seq<char> {
    "missing "@ + label + "\n"@ + USAGE@
}

/// The message for an option given without its path.
pub open spec fn requires_path_text(name: Seq<char>) -> Seq<char> {
    name + " requires a path"@
}

/// The message for an `--override` without a `NAME=PATH` value.
pub open spec fn override_syntax_text() -> Seq<char> {
    "--override requires NAME=PATH"@
}

/// The message for an `--override` with an empty path.
pub open spec fn empty_override_path_text() -> Seq<char> {
    "--override path cannot be empty"@
}

/// The message for a dependency overridden twice.
pub open spec fn duplicate_override_text(name: Seq<char>) -> Seq<char> {
    "duplicate override for "@ + name
}

/// The message for a command word the tool does not know, followed by the
/// usage text.
pub open spec fn unknown_command_text(command: Seq<char>) -> Seq<char> {
    "unknown command "@ + debug_quoted(command) + "\n"@ + USAGE@
}

/// The positional argument at `index`, or the error message: an unknown
/// option that comes first, or too few positional values.
pub open spec fn positional_outcome(args: Seq<Seq<char>>, index: int, label: Seq<char>) -> Result<
    Seq<char>,
    Seq<char>,
> {
    match positional_values(args, 0) {
        Ok(v) => if 0 <= index < v.len() {
            Ok(v[index])
        } else {
            Err(missing_argument_text(label))
        },
        Err(u) => Err(unknown_option_text(u)),
    }
}

/// The value of the last `name` option in `args` from position `i` on, with
/// `found` the value seen before `i`; `None` where an occurrence has no value
/// after it.
pub open spec fn option_value(args: Seq<Seq<char>>, name: Seq<char>, i: int, found: Option<
    Seq<char>,
>) -> Option<Option<Seq<char>>>
    decreases args.len() - i,
{
    if i < 0 || i >= args.len() {
        Some(found)
    } else if args[i] == name {
        if i + 1 < args.len() {
            option_value(args, name, i + 2, Some(args[i + 1]))
        } else {
            None
        }
    } else {
        option_value(args, name, i + 1, found)
    }
}

/// The overrides of `args` from position `i` on, with `acc` those found
/// before `i` and `allow` whether `--allow-dirty-overrides` came before `i`;
/// the error message on a missing or malformed `NAME=PATH`, an invalid name,
/// an empty path or a name given twice, checked in that order.
pub open spec fn overrides_from(
    args: Seq<Seq<char>>,
    i: int,
    acc: Seq<(Seq<char>, Seq<char>)>,
    allow: bool,
) -> Result<(Seq<(Seq<char>, Seq<char>)>, bool), Seq<char>>
    decreases args.len() - i,
{
    if i < 0 || i >= args.len() {
        Ok((acc, allow))
    } else if args[i] == override_flag() {
        if i + 1 >= args.len() || !args[i + 1].contains('=') {
            Err(override_syntax_text())
        } else {
            let value = args[i + 1];
            let k = first_index(value, '=');
            let name = value.subrange(0, k);
            let path = value.subrange(k + 1, value.len() as int);
            if !name_valid(name) {
                Err(invalid_name_text(name))
            } else if path.len() == 0 {
                Err(empty_override_path_text())
            } else if names_of(acc).contains(name) {
                Err(duplicate_override_text(name))
            } else {
                overrides_from(args, i + 2, acc.push((name, path)), allow)
            }
        }
    } else if args[i] == allow_dirty_flag() {
        overrides_from(args, i + 1, acc, true)
    } else {
        overrides_from(args, i + 1, acc, allow)
    }
}

/// The names of a list of overrides.
pub open spec fn names_of(o: Seq<(Seq<char>, Seq<char>)>) -> Seq<Seq<char>> {
    o.map_values(|e: (Seq<char>, Seq<char>)| e.0)
}

/// The overrides as character sequences.
pub open spec fn override_views(o: Seq<(String, String)>) -> Seq<(Seq<char>, Seq<char>)> {
    o.map_values(|e: (String, String)| (e.0@, e.1@))
}

fn unknown_option_message(value: &str) -> (r: String)
    ensures
        r@ == unknown_option_text(value@),
{
    let mut text = String::from_str("unknown option ");
    text.append(value);
    text
}

fn missing_argument_message(label: &str) -> (r: String)
    ensures
        r@ == missing_argument_text(label@),
{
    let mut text = String::from_str("missing ");
    text.append(label);
    text.append("\n");
    text.append(USAGE);
    text
}

fn option_requires_path_message(name: &str) -> (r: String)
    ensures
        r@ == requires_path_text(name@),
{
    let mut text = String::from_str(name);
    text.append(" requires a path");
    text
}

fn duplicate_override_message(name: &str) -> (r: String)
    ensures
        r@ == duplicate_override_text(name@),
{
    let mut text = String::from_str("duplicate override for ");
    text.append(name);
    text
}

fn unknown_command_message(command: &str) -> (r: String)
    ensures
        r@ == unknown_command_text(command@),
{
    let mut text = String::from_str("unknown command ");
    text.append(quoted_text(command).as_str());
    text.append("\n");
    text.append(USAGE);
    text
}

proof fn lemma_flag_literals()
    ensures
        "--project-root"@ == project_root_flag(),
        "--override"@ == override_flag(),
        "--allow-dirty-overrides"@ == allow_dirty_flag(),
        "--library"@ == library_flag(),
        "--"@ == option_prefix(),
{
    reveal_strlit("--project-root");
    reveal_strlit("--override");
    reveal_strlit("--allow-dirty-overrides");
    reveal_strlit("--library");
    reveal_strlit("--");
}

/// The next position after an option at `i` that takes a value.
fn skip_value(i: usize, len: usize) -> (r: usize)
    requires
        i < len,
    ensures
        r == if i + 2 <= len { i + 2 } else { len as int },
{
    if len - i >= 2 {
        i + 2
    } else {
        len
    }
}

/// Returns the positional argument at `index`, skipping the options and
/// their values; an unknown option or too few positional values is an
/// error.
pub fn positional<'a>(args: &'a [String], index: usize, label: &str) -> (r: Result<&'a str, Error>)
    ensures
        match positional_outcome(arg_views(args@), index as int, label@) {
            Ok(v) => r matches Ok(s) && s@ == v,
            Err(m) => r matches Err(e) && e@ == m,
        },
{
    let ghost a = arg_views(args@);
    let mut values: Vec<&'a str> = Vec::new();
    let mut i: usize = 0;
    while i < args.len()
        invariant
            a == arg_views(args@),
            i <= args@.len(),
            positional_values(a, 0) == prepend_values(
                values@.map_values(|s: &str| s@),
                positional_values(a, i as int),
            ),
        decreases args@.len() - i,
    {
        let arg = args[i].as_str();
        proof {
            lemma_flag_literals();
            assert(a[i as int] == arg@);
        }
        if str_equal(arg, "--project-root") || str_equal(arg, "--override") {
            proof {
                assert(positional_values(a, i + 2) == positional_values(a, i as int));
                if i + 2 > args@.len() {
                    assert(positional_values(a, args@.len() as int) == positional_values(a, i + 2));
                }
            }
            i = skip_value(i, args.len());
        } else if str_equal(arg, "--allow-dirty-overrides") {
            i = i + 1;
        } else if str_starts_with(arg, "--") {
            return Err(Error::new(unknown_option_message(arg)));
        } else {
            let ghost before = values@.map_values(|s: &str| s@);
            values.push(arg);
            proof {
                assert(values@.map_values(|s: &str| s@) == before + seq![arg@]);
                if let Ok(rest) = positional_values(a, i + 1) {
                    vstd::seq_lib::lemma_concat_associative(before, seq![arg@], rest);
                }
            }
            i = i + 1;
        }
    }
    proof {
        assert(positional_values(a, i as int) == Ok::<Seq<Seq<char>>, Seq<char>>(Seq::empty()));
        assert(values@.map_values(|s: &str| s@) + Seq::<Seq<char>>::empty() == values@.map_values(
            |s: &str| s@,
        ));
    }
    if index < values.len() {
        Ok(values[index])
    } else {
        Err(Error::new(missing_argument_message(label)))
    }
}

/// Returns the value of the last `name` option, `None` if there is none; an
/// occurrence without a value after it is an error.
pub fn option_path(args: &[String], name: &str) -> (r: Result<Option<String>, Error>)
    ensures
        match option_value(arg_views(args@), name@, 0, None) {
            Some(Some(v)) => r matches Ok(Some(p)) && p@ == v,
            Some(None) => r matches Ok(None),
            None => r matches Err(e) && e@ == requires_path_text(name@),
        },
{
    let ghost a = arg_views(args@);
    let mut found: Option<String> = None;
    let mut i: usize = 0;
    while i < args.len()
        invariant
            a == arg_views(args@),
            i <= args@.len(),
            option_value(a, name@, 0, None) == option_value(
                a,
                name@,
                i as int,
                match found {
                    Some(f) => Some(f@),
                    None => None,
                },
            ),
        decreases args@.len() - i,
    {
        proof {
            assert(a[i as int] == args@[i as int]@);
        }
        if str_equal(args[i].as_str(), name) {
            if i + 1 >= args.len() {
                return Err(Error::new(option_requires_path_message(name)));
            }
            proof {
                assert(a[i + 1] == args@[i + 1]@);
            }
            found = Some(args[i + 1].clone());
            i = i + 1;
        }
        i = i + 1;
    }
    Ok(found)
}

/// Whether `name` is among the names of `overrides`.
fn has_override(overrides: &Vec<(String, String)>, name: &str) -> (r: bool)
    ensures
        r == names_of(override_views(overrides@)).contains(name@),
{
    let ghost names = names_of(override_views(overrides@));
    let mut i: usize = 0;
    while i < overrides.len()
        invariant
            names == names_of(override_views(overrides@)),
            names.len() == overrides@.len(),
            i <= overrides@.len(),
            forall|j: int| 0 <= j < i ==> names[j] != name@,
        decreases overrides@.len() - i,
    {
        proof {
            assert(names[i as int] == overrides@[i as int].0@);
        }
        if str_equal(overrides[i].0.as_str(), name) {
            return true;
        }
        i = i + 1;
    }
    false
}

/// Collects the `--override NAME=PATH` options, in argument order, and
/// whether `--allow-dirty-overrides` is given. A missing or malformed value,
/// an invalid name, an empty path or a name given twice is an error.
pub fn parse_overrides(args: &[String]) -> (r: Result<(Vec<(String, String)>, bool), Error>)
    ensures
        match overrides_from(arg_views(args@), 0, Seq::empty(), false) {
            Ok((o, allow)) => r matches Ok((v, b)) && override_views(v@) == o && b == allow,
            Err(m) => r matches Err(e) && e@ == m,
        },
{
    let ghost a = arg_views(args@);
    let mut overrides: Vec<(String, String)> = Vec::new();
    let mut allow_dirty = false;
    let mut i: usize = 0;
    proof {
        assert(override_views(overrides@) =~= Seq::empty());
    }
    while i < args.len()
        invariant
            a == arg_views(args@),
            i <= args@.len(),
            overrides_from(a, 0, Seq::empty(), false) == overrides_from(
                a,
                i as int,
                override_views(overrides@),
                allow_dirty,
            ),
        decreases args@.len() - i,
    {
        let arg = args[i].as_str();
        proof {
            lemma_flag_literals();
            assert(a[i as int] == arg@);
        }
        if str_equal(arg, "--override") {
            if i + 1 >= args.len() {
                return Err(Error::new(String::from_str("--override requires NAME=PATH")));
            }
            let value = args[i + 1].as_str();
            proof {
                assert(a[i + 1] == value@);
            }
            let split = match crate::repository::find_char(value, '=') {
                Some(k) => k,
                None => {
                    return Err(Error::new(String::from_str("--override requires NAME=PATH")));
                },
            };
            proof {
                crate::repository::lemma_first_index_unique(value@, '=', split as int);
            }
            let n = value.unicode_len();
            let name = value.substring_char(0, split);
            let path = value.substring_char(split + 1, n);
            match validate_name(name) {
                Ok(()) => {},
                Err(error) => {
                    return Err(error);
                },
            }
            if path.is_empty() {
                return Err(Error::new(String::from_str("--override path cannot be empty")));
            }
            if has_override(&overrides, name) {
                return Err(Error::new(duplicate_override_message(name)));
            }
            let ghost before = override_views(overrides@);
            overrides.push((String::from_str(name), String::from_str(path)));
            proof {
                assert(override_views(overrides@) == before.push((name@, path@)));
            }
            i = skip_value(i, args.len());
        } else {
            if str_equal(arg, "--allow-dirty-overrides") {
                allow_dirty = true;
            }
            i = i + 1;
        }
    }
    Ok((overrides, allow_dirty))
}

/// A command of the dependency tool with its arguments.
#[derive(Debug)]
pub enum CliCommand {
    Help,
    Doctor { library: Option<String> },
    Check { library: Option<String> },
    Sync { overrides: Vec<(String, String)>, allow_dirty: bool },
    Status,
    Update { name: String },
    Pin { name: String, checkout: String },
}

/// An optional string as an optional character sequence.
pub open spec fn opt_view(o: Option<String>) -> Option<Seq<char>> {
    match o {
        Some(s) => Some(s@),
        None => None,
    }
}

/// Whether `r` is the `Doctor` or `Check` command (`check` chooses) for the
/// `--library` option of `rest`, or an error where that option lacks a value.
pub open spec fn library_command(r: Result<CliCommand, Error>, rest: Seq<Seq<char>>, check: bool) -> bool {
    match option_value(rest, library_flag(), 0, None) {
        Some(v) => if check {
            r matches Ok(CliCommand::Check { library }) && opt_view(library) == v
        } else {
            r matches Ok(CliCommand::Doctor { library }) && opt_view(library) == v
        },
        None => r matches Err(e) && e@ == requires_path_text(library_flag()),
    }
}

/// Parses the command word and the arguments after it. Any word but the
/// seven commands is an error.
pub fn parse_command(command: &str, rest: &[String]) -> (r: Result<CliCommand, Error>)
    ensures
        (command@ == "--help"@ || command@ == "help"@) ==> r matches Ok(CliCommand::Help),
        command@ == "doctor"@ ==> library_command(r, arg_views(rest@), false),
        command@ == "check"@ ==> library_command(r, arg_views(rest@), true),
        command@ == "sync"@ ==> match overrides_from(arg_views(rest@), 0, Seq::empty(), false) {
            Ok((o, allow)) => r matches Ok(CliCommand::Sync { overrides, allow_dirty })
                && override_views(overrides@) == o && allow_dirty == allow,
            Err(m) => r matches Err(e) && e@ == m,
        },
        command@ == "status"@ ==> r matches Ok(CliCommand::Status),
        command@ == "update"@ ==> match positional_outcome(arg_views(rest@), 0, "dependency name"@) {
            Ok(n) => r matches Ok(CliCommand::Update { name }) && name@ == n,
            Err(m) => r matches Err(e) && e@ == m,
        },
        command@ == "pin"@ ==> match positional_outcome(arg_views(rest@), 0, "dependency name"@) {
            Err(m) => r matches Err(e) && e@ == m,
            Ok(n) => match positional_outcome(arg_views(rest@), 1, "local checkout"@) {
                Ok(c) => r matches Ok(CliCommand::Pin { name, checkout }) && name@ == n
                    && checkout@ == c,
                Err(m) => r matches Err(e) && e@ == m,
            },
        },
        !(command@ == "--help"@ || command@ == "help"@ || command@ == "doctor"@ || command@
            == "check"@ || command@ == "sync"@ || command@ == "status"@ || command@ == "update"@
            || command@ == "pin"@) ==> (r matches Err(e) && e@ == unknown_command_text(command@)),
{
    proof {
        lemma_flag_literals();
        reveal_strlit("--help");
        reveal_strlit("help");
        reveal_strlit("doctor");
        reveal_strlit("check");
        reveal_strlit("sync");
        reveal_strlit("status");
        reveal_strlit("update");
        reveal_strlit("pin");
        assert("--help"@ =~= seq!['-', '-', 'h', 'e', 'l', 'p']);
        assert("doctor"@ =~= seq!['d', 'o', 'c', 't', 'o', 'r']);
        assert("status"@ =~= seq!['s', 't', 'a', 't', 'u', 's']);
        assert("update"@ =~= seq!['u', 'p', 'd', 'a', 't', 'e']);
        assert("help"@ =~= seq!['h', 'e', 'l', 'p']);
        assert("sync"@ =~= seq!['s', 'y', 'n', 'c']);
        assert("check"@ =~= seq!['c', 'h', 'e', 'c', 'k']);
        assert("pin"@ =~= seq!['p', 'i', 'n']);
    }
    if str_equal(command, "--help") || str_equal(command, "help") {
        Ok(CliCommand::Help)
    } else if str_equal(command, "doctor") {
        let r = match option_path(rest, "--library") {
            Ok(library) => Ok(CliCommand::Doctor { library }),
            Err(e) => Err(e),
        };
        proof {
            assert(library_command(r, arg_views(rest@), false));
        }
        r
    } else if str_equal(command, "check") {
        let r = match option_path(rest, "--library") {
            Ok(library) => Ok(CliCommand::Check { library }),
            Err(e) => Err(e),
        };
        proof {
            assert(library_command(r, arg_views(rest@), true));
        }
        r
    } else if str_equal(command, "sync") {
        match parse_overrides(rest) {
            Ok((overrides, allow_dirty)) => Ok(CliCommand::Sync { overrides, allow_dirty }),
            Err(e) => Err(e),
        }
    } else if str_equal(command, "status") {
        Ok(CliCommand::Status)
    } else if str_equal(command, "update") {
        match positional(rest, 0, "dependency name") {
            Ok(name) => Ok(CliCommand::Update { name: String::from_str(name) }),
            Err(e) => Err(e),
        }
    } else if str_equal(command, "pin") {
        let name = match positional(rest, 0, "dependency name") {
            Ok(name) => name,
            Err(e) => {
                return Err(e);
            },
        };
        match positional(rest, 1, "local checkout") {
            Ok(checkout) => Ok(
                CliCommand::Pin { name: String::from_str(name), checkout: String::from_str(checkout) },
            ),
            Err(e) => Err(e),
        }
    } else {
        Err(Error::new(unknown_command_message(command)))
    }
}

proof fn lemma_overrides_distinct(
    args: Seq<Seq<char>>,
    i: int,
    acc: Seq<(Seq<char>, Seq<char>)>,
    allow: bool,
)
    requires
        forall|a: int, b: int| 0 <= a < b < acc.len() ==> acc[a].0 != acc[b].0,
    ensures
        overrides_from(args, i, acc, allow) matches Ok((o, _)) ==> forall|a: int, b: int|
            0 <= a < b < o.len() ==> o[a].0 != o[b].0,
    decreases args.len() - i,
{
    if i < 0 || i >= args.len() {
    } else if args[i] == override_flag() {
        if i + 1 >= args.len() || !args[i + 1].contains('=') {
        } else {
            let value = args[i + 1];
            let k = first_index(value, '=');
            let name = value.subrange(0, k);
            let path = value.subrange(k + 1, value.len() as int);
            if !name_valid(name) || path.len() == 0 || names_of(acc).contains(name) {
            } else {
                let next = acc.push((name, path));
                assert forall|a: int, b: int| 0 <= a < b < next.len() implies next[a].0
                    != next[b].0 by {
                    if b == acc.len() {
                        assert(names_of(acc)[a] == acc[a].0);
                    }
                }
                lemma_overrides_distinct(args, i + 2, next, allow);
            }
        }
    } else if args[i] == allow_dirty_flag() {
        lemma_overrides_distinct(args, i + 1, acc, true);
    } else {
        lemma_overrides_distinct(args, i + 1, acc, allow);
    }
}

/// The overrides parsed from any arguments name each dependency once.
pub proof fn law_override_names_distinct(args: Seq<Seq<char>>)
    ensures
        overrides_from(args, 0, Seq::empty(), false) matches Ok((o, _)) ==> forall|a: int, b: int|
            0 <= a < b < o.len() ==> o[a].0 != o[b].0,
{
    lemma_overrides_distinct(args, 0, Seq::empty(), false);
}

} // verus!
