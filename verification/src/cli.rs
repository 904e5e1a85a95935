//! Command-line handling: which pup command runs and which arguments pass through to cargo.
use vstd::prelude::*;
use crate::text::{opt_view, str_eq};

verus! {

/// The commands that pup understands.
#[derive(Debug, Clone, Copy, PartialEq, Eq, Structural)]
pub enum PupCommand {
    PrintModules,
    PrintTraits,
    Check,
    GenerateConfig,
}

/// The command and configuration handed from the cargo front end to the driver.
pub struct PupCli {
    pub command: PupCommand,
    pub config_path: Option<String>,
}

impl Default for PupCli {
    fn default() -> (r: Self)
        ensures
            r.command == PupCommand::Check,
            r.config_path is None,
    {
        PupCli { command: PupCommand::Check, config_path: None }
    }
}

/// Parsed command line: the command, an optional `--pup-config` path, and the
/// remaining arguments for cargo.
pub struct PupArgs {
    pub command: PupCommand,
    pub config_path: Option<String>,
    pub cargo_args: Vec<String>,
}

/// The views of a sequence of strings.
pub open spec fn string_views(v: Seq<String>) -> Seq<Seq<char>> {
    v.map_values(|s: String| s@)
}

/// The command a word names, if any.
pub open spec fn command_word(w: Seq<char>) -> Option<PupCommand> {
    if w == "print-modules"@ {
        Some(PupCommand::PrintModules)
    } else if w == "print-traits"@ {
        Some(PupCommand::PrintTraits)
    } else if w == "check"@ {
        Some(PupCommand::Check)
    } else if w == "generate-config"@ {
        Some(PupCommand::GenerateConfig)
    } else {
        None
    }
}

/// Index of the first argument after the program name and, when invoked as
/// `cargo pup`, after the `pup` word.
pub open spec fn command_index(args: Seq<Seq<char>>) -> int {
    if args.len() > 1 && args[1] == "pup"@ {
        2
    } else {
        1
    }
}

/// Whether the argument at the command position names a command.
pub open spec fn has_command_word(args: Seq<Seq<char>>) -> bool {
    args.len() > command_index(args) && command_word(args[command_index(args)]) is Some
}

/// The command selected by `args`; `Check` when none is named.
pub open spec fn parsed_command(args: Seq<Seq<char>>) -> PupCommand {
    if has_command_word(args) {
        command_word(args[command_index(args)]).unwrap()
    } else {
        PupCommand::Check
    }
}

/// The arguments that follow the program name, `pup` and the command word.
pub open spec fn option_args(args: Seq<Seq<char>>) -> Seq<Seq<char>> {
    let start = command_index(args) + if has_command_word(args) { 1int } else { 0int };
    if start <= args.len() {
        args.skip(start)
    } else {
        Seq::empty()
    }
}

/// Scans option arguments: the value of the last complete `--pup-config <path>`
/// pair, and every other argument in order. A trailing `--pup-config` without a
/// value is dropped.
pub open spec fn scan_options(s: Seq<Seq<char>>) -> (Option<Seq<char>>, Seq<Seq<char>>)
    decreases s.len(),
{
    if s.len() == 0 {
        (None, Seq::empty())
    } else if s[0] == "--pup-config"@ {
        if s.len() >= 2 {
            let rest = scan_options(s.skip(2));
            (if rest.0 is Some { rest.0 } else { Some(s[1]) }, rest.1)
        } else {
            (None, Seq::empty())
        }
    } else {
        let rest = scan_options(s.skip(1));
        (rest.0, seq![s[0]] + rest.1)
    }
}

/// The outcome of scanning after having seen `config` and `kept`, when the rest
/// scans to `rest`.
pub open spec fn combine_scan(
    config: Option<Seq<char>>,
    kept: Seq<Seq<char>>,
    rest: (Option<Seq<char>>, Seq<Seq<char>>),
) -> (Option<Seq<char>>, Seq<Seq<char>>) {
    (if rest.0 is Some { rest.0 } else { config }, kept + rest.1)
}

proof fn lemma_scan_step(s: Seq<Seq<char>>, i: int, config: Option<Seq<char>>, kept: Seq<Seq<char>>)
    requires
        0 <= i < s.len(),
    ensures
        s[i] == "--pup-config"@ && i + 1 < s.len() ==> combine_scan(config, kept, scan_options(s.skip(i)))
            == combine_scan(Some(s[i + 1]), kept, scan_options(s.skip(i + 2))),
        s[i] == "--pup-config"@ && i + 1 >= s.len() ==> combine_scan(config, kept, scan_options(s.skip(i)))
            == combine_scan(config, kept, scan_options(s.skip(i + 1))),
        s[i] != "--pup-config"@ ==> combine_scan(config, kept, scan_options(s.skip(i)))
            == combine_scan(config, kept.push(s[i]), scan_options(s.skip(i + 1))),
{
    let t = s.skip(i);
    assert(t[0] == s[i]);
    if s[i] == "--pup-config"@ {
        if i + 1 < s.len() {
            assert(t.skip(2) =~= s.skip(i + 2));
            assert(t[1] == s[i + 1]);
        } else {
            assert(s.skip(i + 1) =~= Seq::<Seq<char>>::empty());
        }
    } else {
        assert(t.skip(1) =~= s.skip(i + 1));
        assert(kept + (seq![s[i]] + scan_options(s.skip(i + 1)).1) =~= kept.push(s[i]) + scan_options(
            s.skip(i + 1),
        ).1);
    }
}

/// Arguments with no `--pup-config` are all passed on, in order, and give no
/// configuration path.
pub proof fn lemma_plain_options(s: Seq<Seq<char>>)
    requires
        forall|i: int| 0 <= i < s.len() ==> s[i] != "--pup-config"@,
    ensures
        scan_options(s) == (None::<Seq<char>>, s),
    decreases s.len(),
{
    if s.len() > 0 {
        lemma_plain_options(s.skip(1));
        assert(seq![s[0]] + s.skip(1) =~= s);
    }
}

/// How the command line is read. The word after the program name (or after
/// `pup`, when run as `cargo pup`) names the command: `print-modules`,
/// `print-traits`, `check` or `generate-config`; without one the command is
/// `check`. A `--pup-config <path>` pair gives the configuration path and is
/// not passed on; the other arguments are passed on in order.
pub proof fn lemma_command_line(prog: Seq<char>, rest: Seq<Seq<char>>, path: Seq<char>)
    requires
        forall|i: int| 0 <= i < rest.len() ==> rest[i] != "--pup-config"@,
    ensures
        parsed_command(seq![prog, "print-modules"@] + rest) == PupCommand::PrintModules,
        parsed_command(seq![prog, "print-traits"@] + rest) == PupCommand::PrintTraits,
        parsed_command(seq![prog, "check"@] + rest) == PupCommand::Check,
        parsed_command(seq![prog, "generate-config"@] + rest) == PupCommand::GenerateConfig,
        parsed_command(seq![prog, "pup"@, "print-modules"@] + rest) == PupCommand::PrintModules,
        parsed_command(seq![prog, "pup"@, "print-traits"@] + rest) == PupCommand::PrintTraits,
        parsed_command(seq![prog, "pup"@, "generate-config"@] + rest) == PupCommand::GenerateConfig,
        parsed_command(seq![prog]) == PupCommand::Check,
        parsed_command(seq![prog, "pup"@]) == PupCommand::Check,
        scan_options(option_args(seq![prog, "pup"@, "check"@] + rest)) == (None::<Seq<char>>, rest),
        scan_options(option_args(seq![prog, "pup"@, "check"@, "--pup-config"@, path] + rest)) == (
            Some(path),
            rest,
        ),
{
    reveal_strlit("print-modules");
    reveal_strlit("print-traits");
    reveal_strlit("check");
    reveal_strlit("generate-config");
    reveal_strlit("pup");
    reveal_strlit("--pup-config");
    let m = seq![prog, "print-modules"@] + rest;
    let t = seq![prog, "print-traits"@] + rest;
    let k = seq![prog, "check"@] + rest;
    let g = seq![prog, "generate-config"@] + rest;
    assert(m[1] == "print-modules"@);
    assert("print-modules"@.len() == 13 && "pup"@.len() == 3 && "print-traits"@.len() == 12 && "check"@.len() == 5
        && "generate-config"@.len() == 15);
    assert(command_index(m) == 1);
    assert(command_word(m[1]) == Some(PupCommand::PrintModules));
    assert(t[1] == "print-traits"@);
    assert(command_index(t) == 1);
    assert(command_word(t[1]) == Some(PupCommand::PrintTraits));
    assert(k[1] == "check"@);
    assert(command_index(k) == 1);
    assert(command_word(k[1]) == Some(PupCommand::Check));
    assert(g[1] == "generate-config"@);
    assert(command_index(g) == 1);
    assert(command_word(g[1]) == Some(PupCommand::GenerateConfig));
    let pm = seq![prog, "pup"@, "print-modules"@] + rest;
    let pt = seq![prog, "pup"@, "print-traits"@] + rest;
    let pg = seq![prog, "pup"@, "generate-config"@] + rest;
    assert(pm[1] == "pup"@ && pm[2] == "print-modules"@);
    assert(pt[1] == "pup"@ && pt[2] == "print-traits"@);
    assert(pg[1] == "pup"@ && pg[2] == "generate-config"@);
    lemma_plain_options(rest);
    let c = seq![prog, "pup"@, "check"@] + rest;
    assert(c[1] == "pup"@ && c[2] == "check"@);
    assert(option_args(c) =~= rest);
    let d = seq![prog, "pup"@, "check"@, "--pup-config"@, path] + rest;
    assert(d[1] == "pup"@ && d[2] == "check"@);
    let od = option_args(d);
    assert(od =~= seq!["--pup-config"@, path] + rest);
    assert(od[0] == "--pup-config"@);
    assert(od.skip(2) =~= rest);
}

impl PupArgs {
    /// Parses a full argument list (program name first).
    pub fn parse(args: Vec<String>) -> (r: PupArgs)
        ensures
            r.command == parsed_command(string_views(args@)),
            opt_view(r.config_path) == scan_options(option_args(string_views(args@))).0,
            string_views(r.cargo_args@) == scan_options(option_args(string_views(args@))).1,
    {
        let ghost a = string_views(args@);
        let mut command = PupCommand::Check;
        let mut config_path: Option<String> = None;
        let mut start_idx: usize = 1;
        if args.len() > 1 && str_eq(args[1].as_str(), "pup") {
            start_idx = 2;
        }
        assert(start_idx == command_index(a));
        if args.len() > start_idx {
            let word = args[start_idx].as_str();
            if str_eq(word, "print-modules") {
                command = PupCommand::PrintModules;
                start_idx = start_idx + 1;
            } else if str_eq(word, "print-traits") {
                command = PupCommand::PrintTraits;
                start_idx = start_idx + 1;
            } else if str_eq(word, "check") {
                command = PupCommand::Check;
                start_idx = start_idx + 1;
            } else if str_eq(word, "generate-config") {
                command = PupCommand::GenerateConfig;
                start_idx = start_idx + 1;
            }
        }
        assert(command == parsed_command(a));
        let mut filtered: Vec<String> = Vec::new();
        let mut i: usize = start_idx;
        let ghost opts = option_args(a);
        proof {
            if start_idx > args.len() {
                assert(opts =~= Seq::<Seq<char>>::empty());
            } else {
                assert(opts =~= a.skip(start_idx as int));
            }
        }
        while i < args.len()
            invariant
                a == string_views(args@),
                start_idx <= i || start_idx > args.len(),
                start_idx <= args.len() ==> i <= args.len(),
                start_idx > args.len() ==> filtered@.len() == 0 && i == start_idx && config_path is None,
                start_idx <= args.len() ==> opts =~= a.skip(start_idx as int),
                start_idx > args.len() ==> opts =~= Seq::<Seq<char>>::empty(),
                start_idx <= args.len() ==> combine_scan(
                    opt_view(config_path),
                    string_views(filtered@),
                    scan_options(a.skip(i as int)),
                ) == scan_options(opts),
            decreases args.len() - i,
        {
            let ghost cur = opt_view(config_path);
            proof {
                lemma_scan_step(a, i as int, cur, string_views(filtered@));
            }
            if str_eq(args[i].as_str(), "--pup-config") {
                if i + 1 < args.len() {
                    config_path = Some(args[i + 1].clone());
                    i = i + 2;
                } else {
                    i = i + 1;
                }
            } else {
                let ghost before = filtered@;
                filtered.push(args[i].clone());
                assert(string_views(filtered@) =~= string_views(before).push(a[i as int]));
                i = i + 1;
            }
        }
        proof {
            if start_idx <= args.len() {
                assert(a.skip(i as int) =~= Seq::<Seq<char>>::empty());
                assert(scan_options(a.skip(i as int)) == (None::<Seq<char>>, Seq::<Seq<char>>::empty()));
                assert(string_views(filtered@) + Seq::<Seq<char>>::empty() =~= string_views(filtered@));
            } else {
                assert(filtered@.len() == 0);
                assert(string_views(filtered@) =~= Seq::<Seq<char>>::empty());
                assert(scan_options(opts) == (None::<Seq<char>>, Seq::<Seq<char>>::empty()));
            }
        }
        PupArgs { command, config_path, cargo_args: filtered }
    }
}

} // verus!
