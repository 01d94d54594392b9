//! Command-line parsing of the `sui-id` binary.
//!
//! ```text
//! sui-id [--config PATH]
//! sui-id backup --to PATH [--config PATH]
//! sui-id restore --from PATH [--config PATH] [--force]
//! sui-id --print-sample-config
//! ```
//!
//! With no `--config`, the program looks for `./sui-id.toml`.

use vstd::prelude::*;

use crate::admin::strings_view;
use crate::text::{str_chars, str_eq, string_from_chars, sub_chars};

verus! {

/// Where the configuration is read from when `--config` is not given.
pub const DEFAULT_CONFIG_PATH: &'static str = "./sui-id.toml";

/// A flag whose value is the next argument.
pub open spec fn takes_value(a: Seq<char>) -> bool {
    a == "--config"@ || a == "--to"@ || a == "--from"@
}

pub open spec fn is_flag(a: Seq<char>) -> bool {
    a.len() > 0 && a[0] == '-'
}

/// The first argument of `rest` that is neither a flag nor the value of a
/// flag that takes one.
pub open spec fn subcommand_in(rest: Seq<Seq<char>>) -> Option<Seq<char>>
    decreases rest.len(),
{
    if rest.len() == 0 {
        None
    } else if is_flag(rest[0]) {
        if takes_value(rest[0]) {
            if rest.len() >= 2 {
                subcommand_in(rest.skip(2))
            } else {
                None
            }
        } else {
            subcommand_in(rest.skip(1))
        }
    } else {
        Some(rest[0])
    }
}

/// The subcommand of a full argument vector (the program name skipped).
pub open spec fn subcommand_of(args: Seq<Seq<char>>) -> Option<Seq<char>> {
    if args.len() == 0 {
        None
    } else {
        subcommand_in(args.skip(1))
    }
}

pub open spec fn opt_seq(o: Option<String>) -> Option<Seq<char>> {
    match o {
        Some(s) => Some(s@),
        None => None,
    }
}

/// The value of `--config`, `--to` or `--from` is never taken for the
/// subcommand: a value-taking flag and the argument after it are skipped
/// together.
pub proof fn lemma_flag_values_skipped(f: Seq<char>, v: Seq<char>, rest: Seq<Seq<char>>)
    requires
        f == "--config"@ || f == "--to"@ || f == "--from"@,
    ensures
        subcommand_in(seq![f, v] + rest) == subcommand_in(rest),
{
    reveal_strlit("--config");
    reveal_strlit("--to");
    reveal_strlit("--from");
    let a = seq![f, v] + rest;
    assert(a[0] == f);
    assert(f[0] == '-');
    assert(a.len() >= 2);
    assert(a.skip(2) =~= rest);
}

/// An argument that is not a flag is the subcommand when nothing before it
/// claims it.
pub proof fn lemma_first_positional_is_subcommand(a: Seq<char>, rest: Seq<Seq<char>>)
    requires
        !is_flag(a),
    ensures
        subcommand_in(seq![a] + rest) == Some(a),
{
    assert((seq![a] + rest)[0] == a);
}

/// First positional argument that is a real subcommand name, not a flag
/// and not the value of a flag that takes one.
pub fn find_subcommand(args: &Vec<String>) -> (r: Option<String>)
    ensures
        opt_seq(r) == subcommand_of(strings_view(args@)),
{
    let ghost a = strings_view(args@);
    let mut i: usize = 1;
    if args.len() == 0 {
        return None;
    }
    assert(a.skip(1).skip(0) =~= a.skip(1));
    while i < args.len()
        invariant
            1 <= i,
            a == strings_view(args@),
            subcommand_of(a) == (if i <= a.len() {
                subcommand_in(a.skip(i as int))
            } else {
                None
            }),
        decreases args.len() - i,
    {
        let arg = args[i].as_str();
        assert(a[i as int] == arg@);
        assert(a.skip(i as int)[0] == a[i as int]);
        if arg.unicode_len() > 0 && arg.get_char(0) == '-' {
            if str_eq(arg, "--config") || str_eq(arg, "--to") || str_eq(arg, "--from") {
                if args.len() - i >= 2 {
                    assert(a.skip(i as int).skip(2) =~= a.skip(i + 2));
                } else {
                    assert(a.skip(i as int).len() < 2);
                    return None;
                }
                i = i + 2;
            } else {
                assert(a.skip(i as int).skip(1) =~= a.skip(i + 1));
                i = i + 1;
            }
        } else {
            return Some(args[i].clone());
        }
    }
    assert(i <= a.len() ==> a.skip(i as int).len() == 0);
    None
}

/// Whether `a` is `flag=` followed by a value.
pub open spec fn has_eq_prefix(a: Seq<char>, flag: Seq<char>) -> bool {
    a.len() >= flag.len() + 1 && a.take(flag.len() as int + 1) == flag.push('=')
}

/// The value of `flag` among `rest`: the argument after the first
/// `flag`, or the text after the first `flag=`.
pub open spec fn named_in(rest: Seq<Seq<char>>, flag: Seq<char>) -> Option<Seq<char>>
    decreases rest.len(),
{
    if rest.len() == 0 {
        None
    } else if rest[0] == flag {
        if rest.len() >= 2 {
            Some(rest[1])
        } else {
            None
        }
    } else if has_eq_prefix(rest[0], flag) {
        Some(rest[0].skip(flag.len() as int + 1))
    } else {
        named_in(rest.skip(1), flag)
    }
}

fn eq_prefix_exec(a: &Vec<char>, flag: &Vec<char>) -> (r: bool)
    ensures
        r == has_eq_prefix(a@, flag@),
{
    if a.len() <= flag.len() {
        return false;
    }
    let mut k: usize = 0;
    while k < flag.len()
        invariant
            k <= flag@.len(),
            a@.len() >= flag@.len() + 1,
            forall|j: int| 0 <= j < k ==> a@[j] == flag@[j],
        decreases flag@.len() - k,
    {
        if a[k] != flag[k] {
            assert(a@.take(flag@.len() as int + 1)[k as int] != flag@.push('=')[k as int]);
            return false;
        }
        k = k + 1;
    }
    if a[flag.len()] != '=' {
        assert(a@.take(flag@.len() as int + 1)[flag@.len() as int] != flag@.push('=')[flag@.len() as int]);
        return false;
    }
    assert(a@.take(flag@.len() as int + 1) =~= flag@.push('='));
    true
}

/// A flag followed by a value gives that value, and so does `flag=value`.
pub proof fn lemma_named_value_forms(flag: Seq<char>, v: Seq<char>, rest: Seq<Seq<char>>)
    ensures
        named_in(seq![flag, v] + rest, flag) == Some(v),
        named_in(seq![flag.push('=') + v] + rest, flag) == Some(v),
{
    let a = seq![flag, v] + rest;
    assert(a[0] == flag);
    assert(a[1] == v);
    let w = flag.push('=') + v;
    let b = seq![w] + rest;
    assert(b[0] == w);
    assert(w.take(flag.len() as int + 1) =~= flag.push('='));
    assert(w.skip(flag.len() as int + 1) =~= v);
    if w == flag {
        assert(w.len() > flag.len());
    }
}

/// The path given with `flag` (`--flag PATH` or `--flag=PATH`), if any.
pub fn parse_named_path(args: &Vec<String>, flag: &str) -> (r: Option<String>)
    ensures
        opt_seq(r) == named_in(strings_view(args@), flag@),
{
    let ghost a = strings_view(args@);
    let fv = str_chars(flag);
    let mut i: usize = 0;
    assert(a.skip(0) =~= a);
    while i < args.len()
        invariant
            i <= args@.len(),
            a == strings_view(args@),
            fv@ == flag@,
            named_in(a, flag@) == named_in(a.skip(i as int), flag@),
        decreases args.len() - i,
    {
        let arg = args[i].as_str();
        assert(a[i as int] == arg@);
        assert(a.skip(i as int)[0] == a[i as int]);
        if str_eq(arg, flag) {
            if i + 1 < args.len() {
                assert(a.skip(i as int)[1] == a[i + 1]);
                return Some(args[i + 1].clone());
            }
            return None;
        }
        let av = str_chars(arg);
        if eq_prefix_exec(&av, &fv) {
            let flen = fv.len();
            let alen = av.len();
            assert(alen >= flen + 1);
            let rest = sub_chars(&av, flen + 1, alen);
            assert(rest@ =~= arg@.skip(flag@.len() as int + 1));
            return Some(string_from_chars(&rest));
        }
        assert(a.skip(i as int).skip(1) =~= a.skip(i + 1));
        i = i + 1;
    }
    assert(a.skip(i as int).len() == 0);
    None
}

/// The configuration path given with `--config`, if any.
pub fn parse_config_path(args: &Vec<String>) -> (r: Option<String>)
    ensures
        opt_seq(r) == named_in(strings_view(args@), "--config"@),
{
    parse_named_path(args, "--config")
}

/// What the binary was asked to do.
#[derive(Debug, Clone, PartialEq, Eq)]
pub enum Command {
    Version,
    Help,
    PrintSampleConfig,
    Backup { dest: String, config: String },
    Restore { src: String, config: String, force: bool },
    Serve { config: String },
}

/// Why the arguments were refused.
#[derive(Debug, Clone, PartialEq, Eq)]
pub enum CliError {
    UnknownSubcommand(String),
    BackupNeedsTo,
    RestoreNeedsFrom,
}

/// The configuration path: `--config`, or `./sui-id.toml`.
pub open spec fn config_of(args: Seq<Seq<char>>) -> Seq<char> {
    match named_in(args, "--config"@) {
        Some(p) => p,
        None => DEFAULT_CONFIG_PATH@,
    }
}

/// What the arguments ask for, in the order the binary tests them:
/// version, help, sample config, then the subcommand.
pub open spec fn command_kind(args: Seq<Seq<char>>) -> int {
    if args.contains("--version"@) || args.contains("-V"@) {
        0
    } else if args.contains("--help"@) || args.contains("-h"@) {
        1
    } else if args.contains("--print-sample-config"@) {
        2
    } else {
        match subcommand_of(args) {
            Some(s) => if s == "backup"@ {
                3
            } else if s == "restore"@ {
                4
            } else {
                6
            },
            None => 5,
        }
    }
}

fn contains_arg(args: &Vec<String>, w: &str) -> (r: bool)
    ensures
        r == strings_view(args@).contains(w@),
{
    let ghost a = strings_view(args@);
    let mut i: usize = 0;
    while i < args.len()
        invariant
            i <= args@.len(),
            a == strings_view(args@),
            forall|j: int| 0 <= j < i ==> a[j] != w@,
        decreases args.len() - i,
    {
        if str_eq(args[i].as_str(), w) {
            assert(a[i as int] == w@);
            return true;
        }
        i = i + 1;
    }
    false
}

/// Read the argument vector (program name first).
pub fn parse_command(args: &Vec<String>) -> (r: Result<Command, CliError>)
    ensures
        ({
            let a = strings_view(args@);
            &&& command_kind(a) == 0 ==> r == Ok::<Command, CliError>(Command::Version)
            &&& command_kind(a) == 1 ==> r == Ok::<Command, CliError>(Command::Help)
            &&& command_kind(a) == 2 ==> r == Ok::<Command, CliError>(Command::PrintSampleConfig)
            &&& command_kind(a) == 3 ==> match named_in(a, "--to"@) {
                Some(d) => r matches Ok(Command::Backup { dest, config }) && dest@ == d
                    && config@ == config_of(a),
                None => r == Err::<Command, CliError>(CliError::BackupNeedsTo),
            }
            &&& command_kind(a) == 4 ==> match named_in(a, "--from"@) {
                Some(s) => r matches Ok(Command::Restore { src, config, force }) && src@ == s
                    && config@ == config_of(a) && force == a.contains("--force"@),
                None => r == Err::<Command, CliError>(CliError::RestoreNeedsFrom),
            }
            &&& command_kind(a) == 5 ==> (r matches Ok(Command::Serve { config }) && config@
                == config_of(a))
            &&& command_kind(a) == 6 ==> (r matches Err(CliError::UnknownSubcommand(s))
                && Some(s@) == subcommand_of(a))
        }),
{
    if contains_arg(args, "--version") || contains_arg(args, "-V") {
        return Ok(Command::Version);
    }
    if contains_arg(args, "--help") || contains_arg(args, "-h") {
        return Ok(Command::Help);
    }
    if contains_arg(args, "--print-sample-config") {
        return Ok(Command::PrintSampleConfig);
    }
    let config = match parse_config_path(args) {
        Some(p) => p,
        None => DEFAULT_CONFIG_PATH.to_owned(),
    };
    match find_subcommand(args) {
        Some(s) => {
            if str_eq(s.as_str(), "backup") {
                match parse_named_path(args, "--to") {
                    Some(dest) => Ok(Command::Backup { dest, config }),
                    None => Err(CliError::BackupNeedsTo),
                }
            } else if str_eq(s.as_str(), "restore") {
                match parse_named_path(args, "--from") {
                    Some(src) => {
                        let force = contains_arg(args, "--force");
                        Ok(Command::Restore { src, config, force })
                    },
                    None => Err(CliError::RestoreNeedsFrom),
                }
            } else {
                Err(CliError::UnknownSubcommand(s))
            }
        },
        None => Ok(Command::Serve { config }),
    }
}

} // verus!
